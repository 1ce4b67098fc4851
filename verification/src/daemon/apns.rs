//! Devices that take push notifications.
//!
//! Tokens are kept encrypted. A hash of each is kept to tell them apart and for the log. A push
//! only wakes a device: it never authorizes an approval.
use vstd::prelude::*;
use vstd::string::*;
use vstd::utf8::*;

use crate::codec::{
    digest_text, hex_decode, hex_encode, hex_of, law_hex_round_trip, random_bytes, text_digest,
    unhex,
};
use crate::number::{decimal, to_decimal};
use crate::text::{first_chars, same, take_chars, texts};

verus! {

/// A device that takes push notifications.
#[derive(Clone, Debug)]
pub struct ApnsRecord {
    pub device_id: String,
    pub token_hash: String,
    pub token_ct: String,
    pub nonce: String,
    pub updated_at: i64,
}

/// What is known of such a device.
#[verifier::ext_equal]
pub struct ApnsSpec {
    pub device_id: Seq<char>,
    pub token_hash: Seq<char>,
    pub token_ct: Seq<char>,
    pub nonce: Seq<char>,
    pub updated_at: i64,
}

impl View for ApnsRecord {
    type V = ApnsSpec;

    open spec fn view(&self) -> ApnsSpec {
        ApnsSpec {
            device_id: self.device_id@,
            token_hash: self.token_hash@,
            token_ct: self.token_ct@,
            nonce: self.nonce@,
            updated_at: self.updated_at,
        }
    }
}

/// What is known of some devices.
pub open spec fn store_view(store: Seq<ApnsRecord>) -> Seq<ApnsSpec> {
    store.map_values(|r: ApnsRecord| r@)
}

/// Why a token is not registered or not read back.
#[derive(Clone, Copy, Debug, PartialEq, Eq, Structural)]
pub enum ApnsError {
    /// The device or the token is empty.
    Missing,
    /// The token could not be encrypted.
    Encrypt,
    /// The record is not hexadecimal.
    NotHex,
    /// The record does not decrypt under the key.
    Decrypt,
    /// What was decrypted is no text.
    NotText,
}

/// The bytes that AES-256-GCM makes of some bytes, if it takes them.
pub uninterp spec fn aes_sealed(key: Seq<u8>, nonce: Seq<u8>, plain: Seq<u8>) -> Option<Seq<u8>>;

/// The bytes that AES-256-GCM reads back, if they are authentic.
pub uninterp spec fn aes_opened(key: Seq<u8>, nonce: Seq<u8>, sealed: Seq<u8>) -> Option<Seq<u8>>;

/// `encrypt` of `aes_gcm::Aes256Gcm`, without associated data: it takes up to 2^36 bytes, and what
/// it makes decrypts to what it was made of under the same key and nonce.
#[verifier::external_body]
fn aes_encrypt(key: &[u8], nonce: &[u8], plain: &[u8]) -> (r: Option<Vec<u8>>)
    requires
        key@.len() == 32,
        nonce@.len() == 12,
    ensures
        plain@.len() <= 0x10_0000_0000 ==> r is Some,
        match r {
            Some(c) => aes_sealed(key@, nonce@, plain@) == Some(c@) && aes_opened(key@, nonce@, c@)
                == Some(plain@),
            None => aes_sealed(key@, nonce@, plain@) is None,
        },
{
    let cipher = <aes_gcm::Aes256Gcm as aes_gcm::KeyInit>::new_from_slice(key).ok()?;
    aes_gcm::aead::Aead::encrypt(&cipher, aes_gcm::Nonce::from_slice(nonce), plain).ok()
}

/// `decrypt` of `aes_gcm::Aes256Gcm`, without associated data: it fails on bytes that are not
/// authentic under the key and nonce.
#[verifier::external_body]
fn aes_decrypt(key: &[u8], nonce: &[u8], sealed: &[u8]) -> (r: Option<Vec<u8>>)
    requires
        key@.len() == 32,
        nonce@.len() == 12,
    ensures
        match r {
            Some(p) => aes_opened(key@, nonce@, sealed@) == Some(p@),
            None => aes_opened(key@, nonce@, sealed@) is None,
        },
{
    let cipher = <aes_gcm::Aes256Gcm as aes_gcm::KeyInit>::new_from_slice(key).ok()?;
    aes_gcm::aead::Aead::decrypt(&cipher, aes_gcm::Nonce::from_slice(nonce), sealed).ok()
}

/// `String::from_utf8`: the text whose UTF-8 form some bytes are; nothing where they are none.
#[verifier::external_body]
fn text_of_bytes(bytes: Vec<u8>) -> (r: Option<String>)
    ensures
        match r {
            Some(s) => valid_utf8(bytes@) && encode_utf8(s@) == bytes@,
            None => !valid_utf8(bytes@),
        },
{
    String::from_utf8(bytes).ok()
}

/// Whether the nonce of a record has the length that the cipher takes, if it is hexadecimal.
pub open spec fn nonce_fits(rec: ApnsSpec) -> bool {
    unhex(rec.nonce) matches Some(n) ==> n.len() == 12
}

/// The token of a record, or why it cannot be read.
pub open spec fn token_of_record(key: Seq<u8>, rec: ApnsSpec) -> Result<Seq<char>, ApnsError> {
    match (unhex(rec.nonce), unhex(rec.token_ct)) {
        (Some(n), Some(c)) => match aes_opened(key, n, c) {
            None => Err(ApnsError::Decrypt),
            Some(p) => if valid_utf8(p) {
                Ok(decode_utf8(p))
            } else {
                Err(ApnsError::NotText)
            },
        },
        _ => Err(ApnsError::NotHex),
    }
}

/// The key that is stored, if it has the right length, else a new random one. The second part says
/// whether it is new and has to be stored.
pub fn key_bytes(stored: Option<&[u8]>) -> (r: (Vec<u8>, bool))
    ensures
        r.0@.len() == 32,
        match stored {
            Some(raw) if raw@.len() == 32 => r.0@ == raw@ && !r.1,
            _ => r.1,
        },
{
    if let Some(raw) = stored {
        if raw.len() == 32 {
            let mut key: Vec<u8> = Vec::new();
            let mut i: usize = 0;
            while i < 32
                invariant
                    raw@.len() == 32,
                    i <= 32,
                    key@ == raw@.take(i as int),
                decreases 32 - i,
            {
                key.push(raw[i]);
                assert(key@ =~= raw@.take(i + 1));
                i += 1;
            }
            assert(key@ =~= raw@);
            return (key, false);
        }
    }
    (random_bytes(32), true)
}

/// The token under a given nonce as it is kept: the encrypted bytes and the nonce, both in
/// hexadecimal.
pub fn seal_token(key: &Vec<u8>, nonce: &Vec<u8>, token: &str) -> (r: Option<(String, String)>)
    requires
        key@.len() == 32,
        nonce@.len() == 12,
    ensures
        encode_utf8(token@).len() <= 0x10_0000_0000 ==> r is Some,
        match r {
            Some((ct, n)) => {
                &&& aes_sealed(key@, nonce@, encode_utf8(token@)) is Some
                &&& ct@ == hex_of(aes_sealed(key@, nonce@, encode_utf8(token@))->0)
                &&& n@ == hex_of(nonce@)
                &&& aes_opened(key@, nonce@, unhex(ct@)->0) == Some(encode_utf8(token@))
                &&& unhex(ct@) is Some
                &&& unhex(n@) == Some(nonce@)
            },
            None => aes_sealed(key@, nonce@, encode_utf8(token@)) is None,
        },
{
    match aes_encrypt(key.as_slice(), nonce.as_slice(), token.as_bytes()) {
        Some(ct) => {
            proof {
                law_hex_round_trip(ct@);
                law_hex_round_trip(nonce@);
            }
            Some((hex_encode(ct.as_slice()), hex_encode(nonce.as_slice())))
        },
        None => None,
    }
}

/// The token of a record.
pub fn decrypt_token(key: &Vec<u8>, rec: &ApnsRecord) -> (r: Result<String, ApnsError>)
    requires
        key@.len() == 32,
        nonce_fits(rec@),
    ensures
        match r {
            Ok(t) => token_of_record(key@, rec@) == Ok::<Seq<char>, ApnsError>(t@),
            Err(e) => token_of_record(key@, rec@) == Err::<Seq<char>, ApnsError>(e),
        },
{
    match (hex_decode(rec.nonce.as_str()), hex_decode(rec.token_ct.as_str())) {
        (Some(nonce), Some(ct)) => match aes_decrypt(
            key.as_slice(),
            nonce.as_slice(),
            ct.as_slice(),
        ) {
            Some(plain) => {
                let ghost p = plain@;
                match text_of_bytes(plain) {
                    Some(t) => {
                        proof {
                            encode_utf8_decode_utf8(t@);
                        }
                        Ok(t)
                    },
                    None => Err(ApnsError::NotText),
                }
            },
            None => Err(ApnsError::Decrypt),
        },
        _ => Err(ApnsError::NotHex),
    }
}

/// The devices that are neither the given one nor have the given token.
pub open spec fn others(store: Seq<ApnsSpec>, device_id: Seq<char>, hash: Option<Seq<char>>) -> Seq<
    ApnsSpec,
>
    decreases store.len(),
{
    if store.len() == 0 {
        Seq::empty()
    } else if store.last().device_id != device_id && hash != Some(store.last().token_hash) {
        others(store.drop_last(), device_id, hash).push(store.last())
    } else {
        others(store.drop_last(), device_id, hash)
    }
}

fn keep_others(store: &mut Vec<ApnsRecord>, device_id: &str, hash: Option<&str>)
    ensures
        store_view(final(store)@) == others(
            store_view(old(store)@),
            device_id@,
            crate::text::opt_str(hash),
        ),
{
    let ghost all = store_view(store@);
    let mut kept: Vec<ApnsRecord> = Vec::new();
    let mut i: usize = 0;
    assert(store_view(kept@) =~= others(all.take(0), device_id@, crate::text::opt_str(hash)));
    while i < store.len()
        invariant
            all == store_view(store@),
            i <= store@.len(),
            store_view(kept@) == others(
                all.take(i as int),
                device_id@,
                crate::text::opt_str(hash),
            ),
        decreases store@.len() - i,
    {
        let ghost before = store_view(kept@);
        assert(all.take(i + 1).drop_last() =~= all.take(i as int));
        assert(all.take(i + 1).last() == store@[i as int]@);
        let rec = &store[i];
        let same_token = match hash {
            Some(h) => same(rec.token_hash.as_str(), h),
            None => false,
        };
        if !same(rec.device_id.as_str(), device_id) && !same_token {
            kept.push(
                ApnsRecord {
                    device_id: rec.device_id.clone(),
                    token_hash: rec.token_hash.clone(),
                    token_ct: rec.token_ct.clone(),
                    nonce: rec.nonce.clone(),
                    updated_at: rec.updated_at,
                },
            );
            assert(store_view(kept@) =~= before.push(all[i as int]));
        }
        i += 1;
    }
    assert(all.take(store@.len() as int) =~= all);
    *store = kept;
}

/// No record of a device is left among the others, and what is left was there before.
pub proof fn law_others_leave_out(store: Seq<ApnsSpec>, device_id: Seq<char>, hash: Option<Seq<char>>)
    ensures
        forall|r: ApnsSpec| #[trigger]
            others(store, device_id, hash).contains(r) <==> store.contains(r) && r.device_id
                != device_id && hash != Some(r.token_hash),
        others(store, device_id, hash).len() <= store.len(),
        others(store, device_id, hash).len() == store.len() ==> others(store, device_id, hash)
            == store,
    decreases store.len(),
{
    if store.len() > 0 {
        let front = store.drop_last();
        law_others_leave_out(front, device_id, hash);
        let rest = others(front, device_id, hash);
        let all = others(store, device_id, hash);
        assert forall|r: ApnsSpec| #[trigger] all.contains(r) <==> store.contains(r) && r.device_id
            != device_id && hash != Some(r.token_hash) by {
            if all.contains(r) {
                let k = choose|k: int| 0 <= k < all.len() && all[k] == r;
                if k < rest.len() {
                    assert(rest[k] == r);
                    assert(rest.contains(r));
                    let j = choose|j: int| 0 <= j < front.len() && front[j] == r;
                    assert(store[j] == r);
                } else {
                    assert(store[store.len() - 1] == r);
                }
            }
            if store.contains(r) && r.device_id != device_id && hash != Some(r.token_hash) {
                let k = choose|k: int| 0 <= k < store.len() && store[k] == r;
                if k < front.len() {
                    assert(front[k] == r);
                    assert(rest.contains(r));
                    let j = choose|j: int| 0 <= j < rest.len() && rest[j] == r;
                    assert(all[j] == r);
                } else {
                    assert(all[rest.len() as int] == r);
                }
            }
        }
        if all.len() == store.len() {
            assert(front.push(store.last()) =~= store);
        }
    }
}

/// Whether every record can be read without fear of its nonce.
pub open spec fn store_wf(store: Seq<ApnsSpec>) -> bool {
    forall|i: int| 0 <= i < store.len() ==> nonce_fits(#[trigger] store[i])
}

/// Puts a device with its encrypted token in place of whatever the store held of the device or
/// the token.
pub fn register_sealed(
    store: &mut Vec<ApnsRecord>,
    device_id: &str,
    hash: &str,
    token_ct: String,
    nonce: String,
    now: i64,
)
    ensures
        store_view(final(store)@) == others(
            store_view(old(store)@),
            device_id@,
            Some(hash@),
        ).push(
            ApnsSpec {
                device_id: device_id@,
                token_hash: hash@,
                token_ct: token_ct@,
                nonce: nonce@,
                updated_at: now,
            },
        ),
{
    keep_others(store, device_id, Some(hash));
    let ghost before = store_view(store@);
    let rec = ApnsRecord {
        device_id: device_id.to_owned(),
        token_hash: hash.to_owned(),
        token_ct,
        nonce,
        updated_at: now,
    };
    store.push(rec);
    assert(store_view(store@) =~= before.push(rec@));
}

/// Registers a device's token, in place of whatever was registered for the device or under the
/// token. Returns the hash of the token, never the token. The record that is kept gives the token
/// back under the key.
pub fn register(store: &mut Vec<ApnsRecord>, key: &Vec<u8>, device_id: &str, token: &str, now: i64) -> (r:
    Result<String, ApnsError>)
    requires
        key@.len() == 32,
    ensures
        device_id@.len() == 0 || token@.len() == 0 <==> r == Err::<String, ApnsError>(
            ApnsError::Missing,
        ),
        r matches Err(e) ==> store_view(final(store)@) == store_view(old(store)@) && (e
            == ApnsError::Missing || e == ApnsError::Encrypt),
        device_id@.len() > 0 && token@.len() > 0 && encode_utf8(token@).len() <= 0x10_0000_0000
            ==> r is Ok,
        r matches Ok(hash) ==> {
            &&& hash@ == text_digest(token@)
            &&& exists|rec: ApnsSpec|
                {
                    &&& store_view(final(store)@) == #[trigger] others(
                        store_view(old(store)@),
                        device_id@,
                        Some(hash@),
                    ).push(rec)
                    &&& rec.device_id == device_id@
                    &&& rec.token_hash == hash@
                    &&& rec.updated_at == now
                    &&& nonce_fits(rec)
                    &&& token_of_record(key@, rec) == Ok::<Seq<char>, ApnsError>(token@)
                }
        },
        store_wf(store_view(old(store)@)) ==> store_wf(store_view(final(store)@)),
{
    if token.is_empty() || device_id.is_empty() {
        return Err(ApnsError::Missing);
    }
    let hash = digest_text(token);
    let nonce = random_bytes(12);
    match seal_token(key, &nonce, token) {
        Some((ct, n)) => {
            let ghost rec = ApnsSpec {
                device_id: device_id@,
                token_hash: hash@,
                token_ct: ct@,
                nonce: n@,
                updated_at: now,
            };
            register_sealed(store, device_id, hash.as_str(), ct, n, now);
            proof {
                encode_utf8_valid_utf8(token@);
                encode_utf8_decode_utf8(token@);
                assert(nonce_fits(rec));
                assert(token_of_record(key@, rec) == Ok::<Seq<char>, ApnsError>(token@));
                let before = store_view(old(store)@);
                law_others_leave_out(before, device_id@, Some(hash@));
                let kept = others(before, device_id@, Some(hash@));
                if store_wf(before) {
                    assert forall|i: int| 0 <= i < kept.push(rec).len() implies nonce_fits(
                        #[trigger] kept.push(rec)[i],
                    ) by {
                        if i < kept.len() {
                            assert(kept.contains(kept[i]));
                            let k = choose|k: int| 0 <= k < before.len() && before[k] == kept[i];
                            assert(nonce_fits(before[k]));
                        }
                    }
                }
            }
            Ok(hash)
        },
        None => Err(ApnsError::Encrypt),
    }
}

/// Forgets a device. Returns whether it was known.
pub fn unregister(store: &mut Vec<ApnsRecord>, device_id: &str) -> (r: bool)
    ensures
        store_view(final(store)@) == others(store_view(old(store)@), device_id@, None),
        r <==> exists|i: int|
            0 <= i < old(store)@.len() && (#[trigger] store_view(old(store)@)[i]).device_id
                == device_id@,
{
    let before: usize = store.len();
    let ghost all = store_view(store@);
    keep_others(store, device_id, None);
    proof {
        law_others_leave_out(all, device_id@, None);
        let kept = others(all, device_id@, None);
        assert(kept.len() == store@.len());
        if kept.len() == all.len() {
            assert forall|i: int| 0 <= i < all.len() implies (#[trigger] all[i]).device_id
                != device_id@ by {
                assert(kept.contains(all[i]));
            }
        } else {
            if forall|i: int| 0 <= i < all.len() ==> (#[trigger] all[i]).device_id != device_id@ {
                lemma_all_others(all, device_id@);
            }
        }
    }
    store.len() < before
}

proof fn lemma_all_others(store: Seq<ApnsSpec>, device_id: Seq<char>)
    requires
        forall|i: int| 0 <= i < store.len() ==> (#[trigger] store[i]).device_id != device_id,
    ensures
        others(store, device_id, None) == store,
    decreases store.len(),
{
    if store.len() > 0 {
        let front = store.drop_last();
        assert forall|i: int| 0 <= i < front.len() implies (#[trigger] front[i]).device_id
            != device_id by {
            assert(front[i] == store[i]);
        }
        lemma_all_others(front, device_id);
        assert(store[store.len() - 1].device_id != device_id);
        assert(front.push(store.last()) =~= store);
    } else {
        assert(others(store, device_id, None) =~= store);
    }
}

/// The line that is logged when devices are woken.
pub open spec fn wake_line(digest_prefix: Seq<char>, count: nat, have_creds: bool) -> Seq<char> {
    "apns wake digest_prefix="@ + digest_prefix + " devices="@ + decimal(count) + " creds="@ + (
    if have_creds {
        "true"@
    } else {
        "false"@
    }) + " (awareness only)"@
}

/// The line that is logged about one device when devices are woken.
pub open spec fn wake_device_line(key: Seq<u8>, rec: ApnsSpec) -> Seq<char> {
    match token_of_record(key, rec) {
        Ok(_) => "apns send not configured beyond env presence; token hash "@ + first_chars(
            rec.token_hash,
            8,
        ) + " for "@ + rec.device_id,
        Err(_) => "apns decrypt failed for "@ + rec.device_id,
    }
}

/// The lines that are logged when devices are woken: none without devices, and one for each device
/// where there are credentials.
pub open spec fn wake_lines(
    key: Seq<u8>,
    store: Seq<ApnsSpec>,
    digest_prefix: Seq<char>,
    have_creds: bool,
) -> Seq<Seq<char>> {
    if store.len() == 0 {
        Seq::empty()
    } else if !have_creds {
        seq![wake_line(digest_prefix, store.len(), have_creds)]
    } else {
        seq![wake_line(digest_prefix, store.len(), have_creds)] + store.map_values(
            |r: ApnsSpec| wake_device_line(key, r),
        )
    }
}

/// Where the devices are kept.
pub fn store_path(data_dir: &str) -> (r: String)
    ensures
        r@ == crate::proto::paths::path_join(data_dir@, "apns-devices.json"@),
{
    crate::proto::paths::apns_devices_path(data_dir)
}

/// Whether every record can be read without fear of its nonce.
pub fn store_readable(store: &Vec<ApnsRecord>) -> (r: bool)
    ensures
        r == store_wf(store_view(store@)),
{
    let ghost all = store_view(store@);
    let mut i: usize = 0;
    while i < store.len()
        invariant
            all == store_view(store@),
            i <= store@.len(),
            forall|k: int| 0 <= k < i ==> nonce_fits(#[trigger] all[k]),
        decreases store@.len() - i,
    {
        assert(all[i as int] == store@[i as int]@);
        if let Some(n) = hex_decode(store[i].nonce.as_str()) {
            if n.len() != 12 {
                return false;
            }
        }
        i += 1;
    }
    true
}

/// The lines to log when the devices are woken for a waiting request. Without credentials nothing
/// is sent.
pub fn fanout_pending(
    key: &Vec<u8>,
    store: &Vec<ApnsRecord>,
    digest_prefix: &str,
    have_creds: bool,
) -> (r: Vec<String>)
    requires
        key@.len() == 32,
        store_wf(store_view(store@)),
    ensures
        texts(r@) == wake_lines(key@, store_view(store@), digest_prefix@, have_creds),
{
    let mut out: Vec<String> = Vec::new();
    if store.len() == 0 {
        assert(texts(out@) =~= Seq::empty());
        return out;
    }
    let mut line = "apns wake digest_prefix=".to_owned();
    line.append(digest_prefix);
    line.append(" devices=");
    line.append(to_decimal(store.len() as u64).as_str());
    line.append(" creds=");
    if have_creds {
        line.append("true");
    } else {
        line.append("false");
    }
    line.append(" (awareness only)");
    let ghost first = line@;
    out.push(line);
    assert(texts(out@) =~= seq![first]);
    if !have_creds {
        return out;
    }
    let ghost all = store_view(store@);
    let mut i: usize = 0;
    while i < store.len()
        invariant
            key@.len() == 32,
            all == store_view(store@),
            store_wf(all),
            i <= store@.len(),
            out@.len() == i + 1,
            out@[0]@ == first,
            forall|k: int|
                0 <= k < i ==> (#[trigger] out@[k + 1])@ == wake_device_line(key@, all[k]),
        decreases store@.len() - i,
    {
        let rec = &store[i];
        assert(all[i as int] == rec@);
        assert(nonce_fits(all[i as int]));
        let line = match decrypt_token(key, rec) {
            Ok(_) => {
                let mut line =
                    "apns send not configured beyond env presence; token hash ".to_owned();
                line.append(take_chars(rec.token_hash.as_str(), 8).as_str());
                line.append(" for ");
                line.append(rec.device_id.as_str());
                line
            },
            Err(_) => {
                let mut line = "apns decrypt failed for ".to_owned();
                line.append(rec.device_id.as_str());
                line
            },
        };
        out.push(line);
        i += 1;
    }
    proof {
        let want = wake_lines(key@, all, digest_prefix@, have_creds);
        assert forall|k: int| 0 <= k < want.len() implies texts(out@)[k] == want[k] by {
            if k > 0 {
                assert(out@[(k - 1) + 1]@ == wake_device_line(key@, all[k - 1]));
            }
        }
        assert(texts(out@) =~= want);
    }
    out
}

}
