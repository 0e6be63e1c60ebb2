use vstd::prelude::*;
use vstd::string::StrSliceExecFns;
use vstd::string::StringExecFns;
use vstd::utf8::decode_utf8;
use vstd::utf8::encode_utf8;
use vstd::utf8::valid_utf8;

use crate::bindings::aes128_gcm_open;
use crate::bindings::aes128_gcm_seal;
use crate::bindings::base64_standard_encode;
use crate::bindings::base64_standard_decode;
use crate::bindings::bytes_view;
use crate::bindings::uuid_parse;
use crate::config::EnabledFloodgateConfig;
use crate::identity::legacy_uuid_spec;
use crate::identity::modern_uuid_spec;
use crate::identity::uuid_from_pair;
use crate::numeric::parse_i64_spec;
use crate::text::join_on;
use crate::text::spaces_replaced;
use crate::text::split_on;
use crate::text::truncate_spec;
use crate::text::views_of;

verus! {

/// The bytes of `^Floodgate^`, which open every Floodgate payload.
pub open spec fn floodgate_identifier() -> Seq<u8> {
    seq![94u8, 70u8, 108u8, 111u8, 111u8, 100u8, 103u8, 97u8, 116u8, 101u8, 94u8]
}

/// The bytes of `^Floodgate^>`: the identifier followed by the marker of version 0.
pub open spec fn floodgate_header() -> Seq<u8> {
    floodgate_identifier().push(62u8)
}

/// The Floodgate data version that a hostname part announces: the byte after the
/// identifier, counted from `>`; `None` when the part does not start with the
/// identifier followed by at least one byte.
pub open spec fn version_of(part: Seq<u8>) -> Option<int> {
    if part.len() <= 11 || part.take(11) != floodgate_identifier() {
        None
    } else {
        Some(part[11] as int - 62)
    }
}

/// The first position of `x` in `b`.
pub open spec fn first_index_of(b: Seq<u8>, x: u8) -> Option<int> {
    if exists|i: int| 0 <= i < b.len() && b[i] == x {
        Some(choose|i: int| 0 <= i < b.len() && b[i] == x && forall|j: int| 0 <= j < i ==> b[j] != x)
    } else {
        None
    }
}

/// The two base64 texts of a Floodgate part (initialisation vector, then ciphertext,
/// separated by the first `!` after the header), or the error for a bad header, an
/// oversized payload or a missing separator.
pub open spec fn payload_texts(part: Seq<u8>) -> Result<(Seq<u8>, Seq<u8>), Seq<char>> {
    if part.len() <= 12 || part.take(12) != floodgate_header() {
        Err("Invalid Floodgate header"@)
    } else {
        let payload = part.skip(12);
        if payload.len() > 8192 {
            Err("Floodgate payload is too large"@)
        } else {
            match first_index_of(payload, 33u8) {
                None => Err("Invalid Floodgate payload"@),
                Some(k) => Ok((payload.take(k), payload.skip(k + 1))),
            }
        }
    }
}

/// The checks on the decoded initialisation vector and ciphertext.
pub open spec fn cipher_inputs(iv: Option<Seq<u8>>, ciphertext: Option<Seq<u8>>) -> Result<(Seq<u8>, Seq<u8>), Seq<char>> {
    match iv {
        None => Err("Invalid Floodgate IV encoding"@),
        Some(iv) => match ciphertext {
            None => Err("Invalid Floodgate ciphertext encoding"@),
            Some(ct) => if iv.len() != 12 {
                Err("Invalid Floodgate IV length"@)
            } else if ct.len() == 0 || ct.len() > 4096 {
                Err("Invalid Floodgate ciphertext length"@)
            } else {
                Ok((iv, ct))
            },
        },
    }
}

/// The text of a decryption result: an error when it did not authenticate or is not UTF-8.
pub open spec fn plaintext_text(plaintext: Option<Seq<u8>>) -> Result<Seq<char>, Seq<char>> {
    match plaintext {
        None => Err("Floodgate authentication failed"@),
        Some(p) => if valid_utf8(p) {
            Ok(decode_utf8(p))
        } else {
            Err("Floodgate data is not valid UTF-8"@)
        },
    }
}

/// The text that the Floodgate part `part` carries when decrypted with `key`, or the error.
pub open spec fn decrypt_spec(key: Seq<u8>, part: Seq<u8>) -> Result<Seq<char>, Seq<char>> {
    match payload_texts(part) {
        Err(e) => Err(e),
        Ok((iv_text, ct_text)) => match cipher_inputs(
            base64_standard_decode(iv_text),
            base64_standard_decode(ct_text),
        ) {
            Err(e) => Err(e),
            Ok((iv, ct)) => plaintext_text(aes128_gcm_open(key, iv, ct)),
        },
    }
}

/// The result of a function that gives a string or a string error, as views.
pub open spec fn text_result(r: Result<String, String>) -> Result<Seq<char>, Seq<char>> {
    match r {
        Ok(s) => Ok(s@),
        Err(e) => Err(e@),
    }
}

fn identifier_bytes() -> (v: Vec<u8>)
    ensures
        v@ == floodgate_identifier(),
{
    let v: Vec<u8> = vec![94u8, 70u8, 108u8, 111u8, 111u8, 100u8, 103u8, 97u8, 116u8, 101u8, 94u8];
    assert(v@ =~= floodgate_identifier());
    v
}

/// Whether `bytes` begins with `prefix`.
pub fn starts_with(bytes: &[u8], prefix: &[u8]) -> (b: bool)
    ensures
        b == (prefix@.len() <= bytes@.len() && bytes@.take(prefix@.len() as int) == prefix@),
{
    if prefix.len() > bytes.len() {
        return false;
    }
    let mut i: usize = 0;
    while i < prefix.len()
        invariant
            prefix@.len() <= bytes@.len(),
            i <= prefix@.len(),
            forall|j: int| 0 <= j < i ==> bytes@[j] == prefix@[j],
        decreases prefix@.len() - i,
    {
        if bytes[i] != prefix[i] {
            assert(bytes@.take(prefix@.len() as int)[i as int] != prefix@[i as int]);
            return false;
        }
        i = i + 1;
    }
    assert(bytes@.take(prefix@.len() as int) =~= prefix@);
    true
}

/// The Floodgate data version announced by a hostname part, if it carries one.
pub fn floodgate_version(value: &[u8]) -> (r: Option<i32>)
    ensures
        r matches Some(v) ==> version_of(value@) == Some(v as int),
        r is None <==> version_of(value@) is None,
{
    let identifier = identifier_bytes();
    if value.len() <= 11 || !starts_with(value, identifier.as_slice()) {
        return None;
    }
    Some((value[11] as i32) - 62)
}

/// Finds the base64 texts of the initialisation vector and the ciphertext in a
/// Floodgate part, checking its header and size.
pub fn payload_parts(bytes: &[u8]) -> (r: Result<(Vec<u8>, Vec<u8>), String>)
    ensures
        match r {
            Ok((iv, ct)) => payload_texts(bytes@) == Ok::<(Seq<u8>, Seq<u8>), Seq<char>>((iv@, ct@)),
            Err(e) => payload_texts(bytes@) == Err::<(Seq<u8>, Seq<u8>), Seq<char>>(e@),
        },
{
    let mut header = identifier_bytes();
    header.push(62u8);
    if bytes.len() <= 12 || !starts_with(bytes, header.as_slice()) {
        return Err(String::from_str("Invalid Floodgate header"));
    }
    let (_, payload) = bytes.split_at(12);
    assert(payload@ =~= bytes@.skip(12));
    if payload.len() > 8192 {
        return Err(String::from_str("Floodgate payload is too large"));
    }
    let mut k: usize = 0;
    while k < payload.len() && payload[k] != 33u8
        invariant
            k <= payload@.len(),
            forall|j: int| 0 <= j < k ==> payload@[j] != 33u8,
        decreases payload@.len() - k,
    {
        k = k + 1;
    }
    if k == payload.len() {
        assert(!exists|i: int| 0 <= i < payload@.len() && payload@[i] == 33u8);
        return Err(String::from_str("Invalid Floodgate payload"));
    }
    proof {
        let p = payload@;
        assert(p[k as int] == 33u8);
        let c = choose|i: int| 0 <= i < p.len() && p[i] == 33u8 && forall|j: int| 0 <= j < i ==> p[j] != 33u8;
        assert(0 <= c < p.len() && p[c] == 33u8 && forall|j: int| 0 <= j < c ==> p[j] != 33u8);
        if c < k {
            assert(p[c] != 33u8);
        }
        if k < c {
            assert(p[k as int] != 33u8);
        }
        assert(first_index_of(p, 33u8) == Some(k as int));
    }
    let (iv_text, rest) = payload.split_at(k);
    let (_, ct_text) = rest.split_at(1);
    assert(ct_text@ =~= payload@.skip(k + 1));
    Ok((vstd::slice::slice_to_vec(iv_text), vstd::slice::slice_to_vec(ct_text)))
}

/// Checks the decoded initialisation vector and ciphertext of a Floodgate part.
pub fn check_cipher_inputs(iv: Option<Vec<u8>>, ciphertext: Option<Vec<u8>>) -> (r: Result<(Vec<u8>, Vec<u8>), String>)
    ensures
        match r {
            Ok((a, b)) => cipher_inputs(bytes_view(iv), bytes_view(ciphertext))
                == Ok::<(Seq<u8>, Seq<u8>), Seq<char>>((a@, b@)),
            Err(e) => cipher_inputs(bytes_view(iv), bytes_view(ciphertext))
                == Err::<(Seq<u8>, Seq<u8>), Seq<char>>(e@),
        },
{
    match iv {
        None => Err(String::from_str("Invalid Floodgate IV encoding")),
        Some(iv) => match ciphertext {
            None => Err(String::from_str("Invalid Floodgate ciphertext encoding")),
            Some(ct) => {
                if iv.len() != 12 {
                    Err(String::from_str("Invalid Floodgate IV length"))
                } else if ct.len() == 0 || ct.len() > 4096 {
                    Err(String::from_str("Invalid Floodgate ciphertext length"))
                } else {
                    Ok((iv, ct))
                }
            },
        },
    }
}

/// Turns the result of the decryption into text.
pub fn plaintext_to_text(plaintext: Option<Vec<u8>>) -> (r: Result<String, String>)
    ensures
        text_result(r) == plaintext_text(bytes_view(plaintext)),
{
    match plaintext {
        None => Err(String::from_str("Floodgate authentication failed")),
        Some(p) => match crate::bindings::string_from_utf8(p) {
            Some(text) => Ok(text),
            None => Err(String::from_str("Floodgate data is not valid UTF-8")),
        },
    }
}

/// Decrypts the Floodgate part `value` with `key` into the text it carries.
pub fn decrypt(key: &[u8; 16], value: &str) -> (r: Result<String, String>)
    ensures
        text_result(r) == decrypt_spec(key@, encode_utf8(value@)),
{
    let bytes = value.as_bytes();
    let (iv_text, ct_text) = match payload_parts(bytes) {
        Ok(texts) => texts,
        Err(e) => return Err(e),
    };
    let iv = crate::bindings::base64_decode(iv_text.as_slice());
    let ciphertext = crate::bindings::base64_decode(ct_text.as_slice());
    let (iv, ciphertext) = match check_cipher_inputs(iv, ciphertext) {
        Ok(inputs) => inputs,
        Err(e) => return Err(e),
    };
    let plaintext = crate::bindings::aes128_gcm_decrypt(key, iv.as_slice(), ciphertext.as_slice());
    plaintext_to_text(plaintext)
}

/// The Floodgate part that carries `text` encrypted with `key` under the initialisation
/// vector `iv`: the header, the base64 of `iv`, `!`, the base64 of the ciphertext.
pub open spec fn sealed_part(key: Seq<u8>, iv: Seq<u8>, text: Seq<char>) -> Seq<u8> {
    floodgate_header() + base64_standard_encode(iv) + seq![33u8] + base64_standard_encode(
        aes128_gcm_seal(key, iv, encode_utf8(text)),
    )
}

proof fn lemma_first_index(b: Seq<u8>, x: u8, k: int)
    requires
        0 <= k < b.len(),
        b[k] == x,
        forall|j: int| 0 <= j < k ==> b[j] != x,
    ensures
        first_index_of(b, x) == Some(k),
{
    let c = choose|i: int| 0 <= i < b.len() && b[i] == x && forall|j: int| 0 <= j < i ==> b[j] != x;
    assert(0 <= c < b.len() && b[c] == x && forall|j: int| 0 <= j < c ==> b[j] != x);
    if c < k {
        assert(b[c] != x);
    }
    if k < c {
        assert(b[k] != x);
    }
}

proof fn lemma_ascii_valid_utf8(b: Seq<u8>)
    requires
        forall|i: int| 0 <= i < b.len() ==> #[trigger] b[i] <= 0x7f,
    ensures
        valid_utf8(b),
{
    assert forall|i: int| 0 <= i < b.len() implies vstd::utf8::is_leading_byte_width_1(#[trigger] b[i]) by {
        assert(b[i] <= 0x7f);
    }
    assert(b.subrange(0, 0) =~= Seq::<u8>::empty());
    vstd::utf8::partial_valid_utf8_extend_ascii_block(b, 0, b.len() as int);
    assert(b.subrange(0, b.len() as int) =~= b);
}

proof fn lemma_sealed_part(key: Seq<u8>, iv: Seq<u8>, text: Seq<char>, ct: Seq<u8>)
    requires
        iv.len() == 12,
        encode_utf8(text).len() <= 4080,
        ct == aes128_gcm_seal(key, iv, encode_utf8(text)),
        ct.len() == encode_utf8(text).len() + 16,
        aes128_gcm_open(key, iv, ct) == Some(encode_utf8(text)),
        base64_standard_encode(iv).len() == 16,
        forall|i: int|
            0 <= i < base64_standard_encode(iv).len() ==> crate::bindings::is_base64_byte(
                #[trigger] base64_standard_encode(iv)[i],
            ),
        base64_standard_decode(base64_standard_encode(iv)) == Some(iv),
        base64_standard_encode(ct).len() == 4 * ((ct.len() + 2) / 3),
        forall|i: int|
            0 <= i < base64_standard_encode(ct).len() ==> crate::bindings::is_base64_byte(
                #[trigger] base64_standard_encode(ct)[i],
            ),
        base64_standard_decode(base64_standard_encode(ct)) == Some(ct),
    ensures
        valid_utf8(sealed_part(key, iv, text)),
        decrypt_spec(key, sealed_part(key, iv, text)) == Ok::<Seq<char>, Seq<char>>(text),
{
    let ivs = base64_standard_encode(iv);
    let cts = base64_standard_encode(ct);
    let b = sealed_part(key, iv, text);
    assert(cts.len() <= 5464) by (nonlinear_arith)
        requires
            cts.len() == 4 * ((ct.len() + 2) / 3),
            ct.len() <= 4096,
    ;
    assert forall|i: int| 0 <= i < b.len() implies #[trigger] b[i] <= 0x7f by {
        if i < 12 {
            assert(b[i] == floodgate_header()[i]);
        } else if i < 28 {
            assert(b[i] == ivs[i - 12]);
            assert(crate::bindings::is_base64_byte(ivs[i - 12]));
        } else if i > 28 {
            assert(b[i] == cts[i - 29]);
            assert(crate::bindings::is_base64_byte(cts[i - 29]));
        }
    }
    lemma_ascii_valid_utf8(b);
    let payload = b.skip(12);
    assert(b.take(12) =~= floodgate_header());
    assert(payload =~= ivs + seq![33u8] + cts);
    assert forall|j: int| 0 <= j < 16 implies payload[j] != 33u8 by {
        assert(payload[j] == ivs[j]);
        assert(crate::bindings::is_base64_byte(ivs[j]));
    }
    lemma_first_index(payload, 33u8, 16);
    assert(payload.take(16) =~= ivs);
    assert(payload.skip(17) =~= cts);
    vstd::utf8::encode_utf8_valid_utf8(text);
    vstd::utf8::encode_utf8_decode_utf8(text);
}

/// Builds the Floodgate part that carries `text`, as the proxy sends it; `None` when the
/// text has more than 4080 bytes, whose ciphertext would exceed the 4096 bytes that a
/// Floodgate part may hold. Decrypting the part with the same key gives `text` back.
pub fn seal_payload(key: &[u8; 16], iv: &[u8; 12], text: &str) -> (r: Option<String>)
    ensures
        r is Some <==> encode_utf8(text@).len() <= 4080,
        r matches Some(p) ==> encode_utf8(p@) == sealed_part(key@, iv@, text@),
        r matches Some(p) ==> decrypt_spec(key@, encode_utf8(p@)) == Ok::<Seq<char>, Seq<char>>(text@),
{
    let plain = text.as_bytes();
    if plain.len() > 4080 {
        return None;
    }
    let sealed = match crate::bindings::aes128_gcm_encrypt(key, iv, plain) {
        Some(c) => c,
        None => return None,
    };
    let iv_text = crate::bindings::base64_encode(iv);
    let ct_text = crate::bindings::base64_encode(sealed.as_slice());
    let mut bytes = identifier_bytes();
    bytes.push(62u8);
    assert(bytes@ =~= floodgate_header());
    let with_iv = crate::identity::concat_bytes(bytes.as_slice(), iv_text.as_slice());
    let mut with_sep = with_iv;
    with_sep.push(33u8);
    let all = crate::identity::concat_bytes(with_sep.as_slice(), ct_text.as_slice());
    assert(all@ =~= sealed_part(key@, iv@, text@));
    proof {
        lemma_sealed_part(key@, iv@, text@, sealed@);
    }
    let ghost b = all@;
    let part = match crate::bindings::string_from_utf8(all) {
        Some(p) => p,
        None => return None,
    };
    proof {
        vstd::utf8::decode_utf8_encode_utf8(b);
    }
    Some(part)
}

/// The fields of Floodgate data that the server uses.
pub struct FloodgateData {
    pub username: String,
    pub xuid: String,
    pub education: bool,
    pub tenant_id: String,
}

/// The view of `FloodgateData`: its strings as character sequences.
pub struct FloodgateDataView {
    pub username: Seq<char>,
    pub xuid: Seq<char>,
    pub education: bool,
    pub tenant_id: Seq<char>,
}

impl View for FloodgateData {
    type V = FloodgateDataView;

    open spec fn view(&self) -> FloodgateDataView {
        FloodgateDataView {
            username: self.username@,
            xuid: self.xuid@,
            education: self.education,
            tenant_id: self.tenant_id@,
        }
    }
}

/// The error for a decrypted text with `count` fields that is neither a standard record
/// nor an education record.
pub open spec fn field_count_message(count: nat) -> Seq<char> {
    "Invalid Floodgate data field count: "@ + crate::numeric::decimal(count)
}

/// The data that a decrypted Floodgate text holds. Its fields are separated by NUL: a
/// standard record has 13 of them, an education record 16 with `1` in the 14th; the 10th
/// is the proxy flag, `0` or `1`. The username is the 2nd field, the XUID the 3rd and the
/// tenant of an education record its 15th.
pub open spec fn parse_data_spec(text: Seq<char>) -> Result<FloodgateDataView, Seq<char>> {
    let f = crate::text::split_on(text, '\0');
    if !(f.len() == 13 || (f.len() == 16 && f[13] == seq!['1'])) {
        Err(field_count_message(f.len()))
    } else if f[9] != seq!['0'] && f[9] != seq!['1'] {
        Err("Invalid Floodgate proxy flag"@)
    } else {
        Ok(
            FloodgateDataView {
                username: f[1],
                xuid: f[2],
                education: f.len() == 16,
                tenant_id: if f.len() == 16 { f[14] } else { Seq::<char>::empty() },
            },
        )
    }
}

/// The result of `parse_data` as views.
pub open spec fn data_result(r: Result<FloodgateData, String>) -> Result<FloodgateDataView, Seq<char>> {
    match r {
        Ok(d) => Ok(d@),
        Err(e) => Err(e@),
    }
}

/// Whether `s` is the one character `c`.
pub fn is_single_char(s: &str, c: char) -> (b: bool)
    ensures
        b == (s@ == seq![c]),
{
    let n = s.unicode_len();
    if n != 1 {
        assert(s@.len() != seq![c].len());
        return false;
    }
    let first = s.get_char(0);
    if first != c {
        assert(s@[0] != seq![c][0]);
        return false;
    }
    assert(s@ =~= seq![c]);
    true
}

/// Reads the Floodgate data held in a decrypted text.
pub fn parse_data(data: &str) -> (r: Result<FloodgateData, String>)
    ensures
        data_result(r) == parse_data_spec(data@),
{
    let fields = crate::text::split_nul(data);
    let ghost f = crate::text::split_on(data@, '\0');
    assert(forall|i: int| 0 <= i < fields@.len() ==> fields@[i]@ == #[trigger] f[i]);
    let n = fields.len();
    if !(n == 13 || (n == 16 && is_single_char(fields[13], '1'))) {
        let mut e = String::from_str("Invalid Floodgate data field count: ");
        let count = crate::numeric::format_count(n);
        e.append(count.as_str());
        return Err(e);
    }
    if !is_single_char(fields[9], '0') && !is_single_char(fields[9], '1') {
        return Err(String::from_str("Invalid Floodgate proxy flag"));
    }
    let education = n == 16;
    let tenant_id = if education {
        String::from_str(fields[14])
    } else {
        String::new()
    };
    Ok(
        FloodgateData {
            username: String::from_str(fields[1]),
            xuid: String::from_str(fields[2]),
            education,
            tenant_id,
        },
    )
}

/// How the server treats Floodgate data: the shared key (none when Floodgate is off) and
/// how player names and identities are formed.
pub struct FloodgateSettings {
    key: Option<[u8; 16]>,
    education_enabled: bool,
    username_prefix: String,
    education_prefix: String,
    replace_spaces: bool,
    education_uuid_legacy: bool,
}

/// The view of `FloodgateSettings`.
pub struct FloodgateSettingsView {
    pub key: Option<Seq<u8>>,
    pub education_enabled: bool,
    pub username_prefix: Seq<char>,
    pub education_prefix: Seq<char>,
    pub replace_spaces: bool,
    pub education_uuid_legacy: bool,
}

impl View for FloodgateSettings {
    type V = FloodgateSettingsView;

    closed spec fn view(&self) -> FloodgateSettingsView {
        FloodgateSettingsView {
            key: match self.key {
                Some(k) => Some(k@),
                None => None,
            },
            education_enabled: self.education_enabled,
            username_prefix: self.username_prefix@,
            education_prefix: self.education_prefix@,
            replace_spaces: self.replace_spaces,
            education_uuid_legacy: self.education_uuid_legacy,
        }
    }
}

/// A username prefix is at most 16 bytes of UTF-8 and holds no NUL.
pub open spec fn prefix_allowed(prefix: Seq<char>) -> bool {
    encode_utf8(prefix).len() <= 16 && !prefix.contains('\0')
}

/// The error for a prefix that is not allowed, named `name` in the message.
pub open spec fn prefix_problem(prefix: Seq<char>, name: Seq<char>) -> Option<Seq<char>> {
    if encode_utf8(prefix).len() > 16 {
        Some(name + " must be at most 16 bytes"@)
    } else if prefix.contains('\0') {
        Some(name + " must not contain NUL bytes"@)
    } else {
        None
    }
}

/// The error for a key file of `len` bytes.
pub open spec fn key_length_message(len: nat) -> Seq<char> {
    "Floodgate AES key must be exactly 16 bytes, got "@ + crate::numeric::decimal(len)
}

/// The settings that an enabled configuration gives, where `key_file` is what reading the
/// key file gave (its bytes, or the error that reading it reported).
pub open spec fn from_config_spec(c: EnabledFloodgateConfig, key_file: Result<Seq<u8>, Seq<char>>) -> Result<FloodgateSettingsView, Seq<char>> {
    match prefix_problem(c.username_prefix@, "Floodgate username prefix"@) {
        Some(e) => Err(e),
        None => match prefix_problem(c.education_username_prefix@, "Education username prefix"@) {
            Some(e) => Err(e),
            None => match key_file {
                Err(e) => Err(e),
                Ok(k) => if k.len() != 16 {
                    Err(key_length_message(k.len()))
                } else {
                    Ok(
                        FloodgateSettingsView {
                            key: Some(k),
                            education_enabled: c.education,
                            username_prefix: c.username_prefix@,
                            education_prefix: c.education_username_prefix@,
                            replace_spaces: c.replace_spaces,
                            education_uuid_legacy: c.education_uuid_legacy,
                        },
                    )
                },
            },
        },
    }
}

/// The view of what reading a key file gave.
pub open spec fn key_file_view(r: Result<Vec<u8>, String>) -> Result<Seq<u8>, Seq<char>> {
    match r {
        Ok(b) => Ok(b@),
        Err(e) => Err(e@),
    }
}

/// The error for a part that announces Floodgate data version `v`, other than 0.
pub open spec fn version_message(v: int) -> Seq<char> {
    "Unsupported Floodgate data version: "@ + crate::numeric::signed_decimal(v)
}

/// One step of reading a hostname: `clean` holds the parts kept so far and `found` the
/// Floodgate data read so far; `part` is the next part.
#[verifier::opaque]
pub open spec fn scan_step(
    key: Seq<u8>,
    education_enabled: bool,
    clean: Seq<Seq<char>>,
    found: Option<FloodgateDataView>,
    part: Seq<char>,
) -> Result<(Seq<Seq<char>>, Option<FloodgateDataView>), Seq<char>> {
    let b = encode_utf8(part);
    match version_of(b) {
        None => Ok((clean.push(part), found)),
        Some(v) => if v != 0 {
            Err(version_message(v))
        } else if found is Some {
            Err("Multiple Floodgate payloads were provided"@)
        } else {
            match decrypt_spec(key, b) {
                Err(e) => Err(e),
                Ok(text) => match parse_data_spec(text) {
                    Err(e) => Err(e),
                    Ok(d) => if d.education && !education_enabled {
                        Err("Education Floodgate data received but education support is disabled"@)
                    } else {
                        Ok((clean, Some(d)))
                    },
                },
            }
        },
    }
}

/// Reads the NUL-separated parts of a hostname from first to last.
pub open spec fn scan_parts(key: Seq<u8>, education_enabled: bool, parts: Seq<Seq<char>>) -> Result<(Seq<Seq<char>>, Option<FloodgateDataView>), Seq<char>>
    decreases parts.len(),
{
    if parts.len() == 0 {
        Ok((Seq::<Seq<char>>::empty(), None))
    } else {
        match scan_parts(key, education_enabled, parts.drop_last()) {
            Err(e) => Err(e),
            Ok((clean, found)) => scan_step(key, education_enabled, clean, found, parts.last()),
        }
    }
}

/// What one step of reading a hostname does to the parts kept and the data found: a part
/// without Floodgate data is kept, and a part with it is never kept and gives the data,
/// which must not have been found before.
pub proof fn lemma_scan_step_shape(
    key: Seq<u8>,
    education_enabled: bool,
    clean: Seq<Seq<char>>,
    found: Option<FloodgateDataView>,
    part: Seq<char>,
)
    ensures
        version_of(encode_utf8(part)) is None ==> scan_step(key, education_enabled, clean, found, part)
            == Ok::<(Seq<Seq<char>>, Option<FloodgateDataView>), Seq<char>>((clean.push(part), found)),
        version_of(encode_utf8(part)) is Some ==> match scan_step(key, education_enabled, clean, found, part) {
            Ok((c, f)) => {
                &&& c == clean
                &&& found is None
                &&& f is Some
                &&& (f->0.education ==> education_enabled)
                &&& version_of(encode_utf8(part)) == Some(0int)
                &&& decrypt_spec(key, encode_utf8(part)) is Ok
                &&& parse_data_spec(decrypt_spec(key, encode_utf8(part))->Ok_0) == Ok::<FloodgateDataView, Seq<char>>(f->0)
            },
            Err(_) => true,
        },
{
    reveal(scan_step);
}

/// Once reading a prefix of the parts fails, reading all of them fails the same way.
pub proof fn lemma_scan_error_persists(key: Seq<u8>, education_enabled: bool, parts: Seq<Seq<char>>, k: int)
    requires
        0 <= k <= parts.len(),
        scan_parts(key, education_enabled, parts.take(k)) is Err,
    ensures
        scan_parts(key, education_enabled, parts) == scan_parts(key, education_enabled, parts.take(k)),
    decreases parts.len() - k,
{
    if k == parts.len() {
        assert(parts.take(k) =~= parts);
    } else {
        assert(parts.take(k + 1).drop_last() =~= parts.take(k));
        lemma_scan_error_persists(key, education_enabled, parts, k + 1);
    }
}

/// What the server makes of a handshake hostname: the hostname without the Floodgate
/// part and the data that part carried, the unchanged hostname when there is no such
/// part or Floodgate is off, or the error.
pub open spec fn parse_hostname_spec(s: FloodgateSettingsView, hostname: Seq<char>) -> Result<(Seq<char>, Option<FloodgateDataView>), Seq<char>> {
    match s.key {
        None => Ok((hostname, None)),
        Some(key) => match scan_parts(key, s.education_enabled, split_on(hostname, '\0')) {
            Err(e) => Err(e),
            Ok((clean, None)) => Ok((hostname, None)),
            Ok((clean, Some(d))) => Ok((join_on(clean, '\0'), Some(d))),
        },
    }
}

/// The view of optional Floodgate data.
pub open spec fn data_view(d: Option<FloodgateData>) -> Option<FloodgateDataView> {
    match d {
        Some(d) => Some(d@),
        None => None,
    }
}

/// The result of `parse_hostname` as views.
pub open spec fn hostname_result(r: Result<(String, Option<FloodgateData>), String>) -> Result<(Seq<char>, Option<FloodgateDataView>), Seq<char>> {
    match r {
        Ok((h, d)) => Ok((h@, data_view(d))),
        Err(e) => Err(e@),
    }
}

/// Whether `s` holds the character `c`.
pub fn contains_char(s: &str, c: char) -> (b: bool)
    ensures
        b == s@.contains(c),
{
    let n = s.unicode_len();
    let mut i: usize = 0;
    while i < n
        invariant
            n == s@.len(),
            i <= n,
            forall|j: int| 0 <= j < i ==> s@[j] != c,
        decreases n - i,
    {
        if s.get_char(i) == c {
            return true;
        }
        i = i + 1;
    }
    false
}

/// Checks a configured username prefix; `name` names it in the error.
pub fn validate_prefix(prefix: &str, name: &str) -> (r: Result<(), String>)
    ensures
        match r {
            Ok(()) => prefix_problem(prefix@, name@) is None,
            Err(e) => prefix_problem(prefix@, name@) == Some(e@),
        },
{
    if prefix.as_bytes().len() > 16 {
        let mut e = String::from_str(name);
        e.append(" must be at most 16 bytes");
        return Err(e);
    }
    if contains_char(prefix, '\0') {
        let mut e = String::from_str(name);
        e.append(" must not contain NUL bytes");
        return Err(e);
    }
    Ok(())
}

/// Takes the contents of a key file as an AES-128 key.
pub fn key_from_bytes(data: &[u8]) -> (r: Result<[u8; 16], String>)
    ensures
        r is Ok <==> data@.len() == 16,
        r matches Ok(k) ==> k@ == data@,
        r matches Err(e) ==> e@ == key_length_message(data@.len()),
{
    if data.len() != 16 {
        let mut e = String::from_str("Floodgate AES key must be exactly 16 bytes, got ");
        let count = crate::numeric::format_count(data.len());
        e.append(count.as_str());
        return Err(e);
    }
    let key: [u8; 16] = [
        data[0], data[1], data[2], data[3], data[4], data[5], data[6], data[7],
        data[8], data[9], data[10], data[11], data[12], data[13], data[14], data[15],
    ];
    assert(key@ =~= data@);
    Ok(key)
}

/// The name a player gets on this server: the configured prefix (the education one for
/// education players) followed by the player's name cut so that both fit in 16 bytes,
/// with spaces turned into underscores when the settings ask for it.
pub open spec fn username_spec(s: FloodgateSettingsView, d: FloodgateDataView) -> Seq<char> {
    let prefix = if d.education { s.education_prefix } else { s.username_prefix };
    let used = encode_utf8(prefix).len();
    let room: int = if used >= 16 { 0 } else { 16 - used };
    let name = prefix + truncate_spec(d.username, room);
    if s.replace_spaces {
        spaces_replaced(name)
    } else {
        name
    }
}

/// The UUID a player gets on this server, or the error: for a Bedrock player the XUID,
/// read as an `i64`, as low half; for an education player the legacy or the modern
/// education UUID, as the settings choose.
pub open spec fn profile_uuid_spec(s: FloodgateSettingsView, d: FloodgateDataView) -> Result<u128, Seq<char>> {
    if d.education {
        if s.education_uuid_legacy {
            Ok(legacy_uuid_spec(d.tenant_id, d.username))
        } else {
            match uuid_parse(d.xuid) {
                Some(v) => Ok(modern_uuid_spec(v)),
                None => Err("EduFloodgate xuid is not a valid Entra OID"@),
            }
        }
    } else {
        match parse_i64_spec(d.xuid) {
            Some(x) => Ok(uuid_from_pair(0, x as u64)),
            None => Err("Floodgate xuid is not a valid 64-bit integer"@),
        }
    }
}

/// The name and UUID of the player whose Floodgate data is `d`, or the error.
pub open spec fn game_profile_spec(s: FloodgateSettingsView, d: FloodgateDataView) -> Result<(Seq<char>, u128), Seq<char>> {
    match profile_uuid_spec(s, d) {
        Ok(u) => Ok((username_spec(s, d), u)),
        Err(e) => Err(e),
    }
}

/// The result of `game_profile` as views.
pub open spec fn profile_result(r: Result<(String, u128), String>) -> Result<(Seq<char>, u128), Seq<char>> {
    match r {
        Ok((name, u)) => Ok((name@, u)),
        Err(e) => Err(e@),
    }
}

impl Clone for FloodgateData {
    fn clone(&self) -> (c: Self)
        ensures
            c@ == self@,
    {
        FloodgateData {
            username: self.username.clone(),
            xuid: self.xuid.clone(),
            education: self.education,
            tenant_id: self.tenant_id.clone(),
        }
    }
}

impl Default for FloodgateSettings {
    /// Floodgate off: no key, empty prefixes, spaces replaced.
    fn default() -> (s: Self)
        ensures
            s@ == (FloodgateSettingsView {
                key: None,
                education_enabled: false,
                username_prefix: Seq::<char>::empty(),
                education_prefix: Seq::<char>::empty(),
                replace_spaces: true,
                education_uuid_legacy: false,
            }),
    {
        let s = FloodgateSettings {
            key: None,
            education_enabled: false,
            username_prefix: String::new(),
            education_prefix: String::new(),
            replace_spaces: true,
            education_uuid_legacy: false,
        };
        s
    }
}

impl Clone for FloodgateSettings {
    fn clone(&self) -> (c: Self)
        ensures
            c@ == self@,
    {
        proof {
            use_type_invariant(self);
        }
        FloodgateSettings {
            key: self.key,
            education_enabled: self.education_enabled,
            username_prefix: self.username_prefix.clone(),
            education_prefix: self.education_prefix.clone(),
            replace_spaces: self.replace_spaces,
            education_uuid_legacy: self.education_uuid_legacy,
        }
    }
}

impl FloodgateSettings {
    /// Every prefix the settings hold is allowed.
    #[verifier::type_invariant]
    spec fn well_formed(self) -> bool {
        prefix_allowed(self.username_prefix@) && prefix_allowed(self.education_prefix@)
    }

    /// The settings of an enabled Floodgate configuration. `key_file` is what reading the
    /// configured key file gave: its bytes, or the error message for a failed read.
    pub fn from_config(config: &EnabledFloodgateConfig, key_file: Result<Vec<u8>, String>) -> (r: Result<Self, String>)
        ensures
            match r {
                Ok(s) => from_config_spec(*config, key_file_view(key_file)) == Ok::<FloodgateSettingsView, Seq<char>>(s@),
                Err(e) => from_config_spec(*config, key_file_view(key_file)) == Err::<FloodgateSettingsView, Seq<char>>(e@),
            },
    {
        match validate_prefix(config.username_prefix.as_str(), "Floodgate username prefix") {
            Ok(()) => {},
            Err(e) => return Err(e),
        }
        match validate_prefix(config.education_username_prefix.as_str(), "Education username prefix") {
            Ok(()) => {},
            Err(e) => return Err(e),
        }
        let data = match key_file {
            Ok(data) => data,
            Err(e) => return Err(e),
        };
        let key = match key_from_bytes(data.as_slice()) {
            Ok(key) => key,
            Err(e) => return Err(e),
        };
        Ok(
            FloodgateSettings {
                key: Some(key),
                education_enabled: config.education,
                username_prefix: config.username_prefix.clone(),
                education_prefix: config.education_username_prefix.clone(),
                replace_spaces: config.replace_spaces,
                education_uuid_legacy: config.education_uuid_legacy,
            },
        )
    }

    /// One step of `parse_hostname`: keeps `part` when it is no Floodgate part, else reads
    /// the data it carries into `found`.
    fn scan_part<'a>(
        &self,
        key: &[u8; 16],
        part: &'a str,
        clean: &mut Vec<&'a str>,
        found: &mut Option<FloodgateData>,
    ) -> (r: Result<(), String>)
        ensures
            match r {
                Ok(()) => scan_step(key@, self.education_enabled, views_of(old(clean)@), data_view(*old(found)), part@)
                    == Ok::<(Seq<Seq<char>>, Option<FloodgateDataView>), Seq<char>>((views_of(final(clean)@), data_view(*final(found)))),
                Err(e) => scan_step(key@, self.education_enabled, views_of(old(clean)@), data_view(*old(found)), part@)
                    == Err::<(Seq<Seq<char>>, Option<FloodgateDataView>), Seq<char>>(e@),
            },
    {
        reveal(scan_step);
        let bytes = part.as_bytes();
        match floodgate_version(bytes) {
            None => {
                clean.push(part);
                assert(views_of(clean@) =~= views_of(old(clean)@).push(part@));
                Ok(())
            },
            Some(version) => {
                if version != 0 {
                    let mut e = String::from_str("Unsupported Floodgate data version: ");
                    let v = crate::numeric::format_decimal(version as i64);
                    e.append(v.as_str());
                    return Err(e);
                }
                if found.is_some() {
                    return Err(String::from_str("Multiple Floodgate payloads were provided"));
                }
                let text = match decrypt(key, part) {
                    Ok(text) => text,
                    Err(e) => return Err(e),
                };
                let data = match parse_data(text.as_str()) {
                    Ok(data) => data,
                    Err(e) => return Err(e),
                };
                if data.education && !self.education_enabled {
                    return Err(
                        String::from_str(
                            "Education Floodgate data received but education support is disabled",
                        ),
                    );
                }
                *found = Some(data);
                Ok(())
            },
        }
    }

    /// Reads the handshake hostname: drops the one Floodgate part, if there is one, and
    /// returns the data it carries with the rest of the hostname.
    pub fn parse_hostname(&self, hostname: &str) -> (r: Result<(String, Option<FloodgateData>), String>)
        ensures
            hostname_result(r) == parse_hostname_spec(self@, hostname@),
    {
        let key = match &self.key {
            None => return Ok((String::from_str(hostname), None)),
            Some(k) => k,
        };
        let ghost kv = key@;
        let parts = crate::text::split_nul(hostname);
        let ghost all = views_of(parts@);
        let mut clean: Vec<&str> = Vec::new();
        let mut found: Option<FloodgateData> = None;
        let n = parts.len();
        assert(all.take(0) =~= Seq::<Seq<char>>::empty());
        assert(views_of(clean@) =~= Seq::<Seq<char>>::empty());
        for i in 0..n
            invariant
                n == parts@.len(),
                all == views_of(parts@),
                all == split_on(hostname@, '\0'),
                self@.key == Some(kv),
                kv == key@,
                scan_parts(kv, self.education_enabled, all.take(i as int))
                    == Ok::<(Seq<Seq<char>>, Option<FloodgateDataView>), Seq<char>>((views_of(clean@), data_view(found))),
        {
            let part = parts[i];
            assert(all.take(i + 1).drop_last() =~= all.take(i as int));
            assert(all.take(i + 1).last() == part@);
            match self.scan_part(key, part, &mut clean, &mut found) {
                Ok(()) => {},
                Err(e) => {
                    proof {
                        lemma_scan_error_persists(kv, self.education_enabled, all, i + 1);
                    }
                    return Err(e);
                },
            }
        }
        assert(all.take(n as int) =~= all);
        match found {
            None => Ok((String::from_str(hostname), None)),
            Some(data) => Ok((crate::text::join_nul(&clean), Some(data))),
        }
    }

    /// The name and UUID that the player with Floodgate data `data` gets; the name never
    /// takes more than 16 bytes.
    pub fn game_profile(&self, data: &FloodgateData) -> (r: Result<(String, u128), String>)
        ensures
            profile_result(r) == game_profile_spec(self@, data@),
            r matches Ok((name, _)) ==> encode_utf8(name@).len() <= 16,
    {
        proof {
            use_type_invariant(self);
        }
        let prefix: &String = if data.education {
            &self.education_prefix
        } else {
            &self.username_prefix
        };
        let used = prefix.as_str().as_bytes().len();
        let room = 16usize.saturating_sub(used);
        let cut = crate::text::truncate_utf8(data.username.as_str(), room);
        let mut name = prefix.clone();
        name.append(cut.as_str());
        proof {
            crate::text::law_truncate_fits(data.username@, room as int);
            crate::text::lemma_encode_utf8_concat(prefix@, cut@);
            crate::text::lemma_spaces_replaced_len(name@);
        }
        let name = if self.replace_spaces {
            crate::text::replace_spaces(name.as_str())
        } else {
            name
        };
        let uuid = if data.education {
            if self.education_uuid_legacy {
                crate::identity::legacy_education_uuid(data.tenant_id.as_str(), data.username.as_str())
            } else {
                match crate::identity::modern_education_uuid(data.xuid.as_str()) {
                    Ok(u) => u,
                    Err(e) => return Err(e),
                }
            }
        } else {
            match crate::numeric::parse_i64(data.xuid.as_str()) {
                Some(x) => crate::identity::uuid_from_u64_pair(0, x as u64),
                None => return Err(String::from_str("Floodgate xuid is not a valid 64-bit integer")),
            }
        };
        Ok((name, uuid))
    }
}

} // verus!
