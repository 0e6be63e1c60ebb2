use vstd::prelude::*;
use vstd::utf8::encode_utf8;

use crate::config::EnabledFloodgateConfig;
use crate::floodgate::FloodgateDataView;
use crate::floodgate::from_config_spec;
use crate::floodgate::game_profile_spec;
use crate::floodgate::parse_data_spec;
use crate::floodgate::prefix_allowed;
use crate::floodgate::username_spec;
use crate::bindings::uuid_parse;
use crate::bindings::base64_standard_decode;
use crate::identity::legacy_uuid_spec;
use crate::text::spaces_replaced;
use crate::forwarding::StructuredForwarding;
use crate::identity::EDUCATION_UUID_MSB;
use crate::identity::modern_uuid_spec;
use crate::numeric::parse_i64_spec;
use crate::floodgate::FloodgateSettingsView;
use crate::floodgate::parse_hostname_spec;
use crate::floodgate::scan_parts;
use crate::floodgate::version_of;
use crate::floodgate::decrypt_spec;
use crate::floodgate::floodgate_header;
use crate::floodgate::floodgate_identifier;
use crate::forwarding::ForwardingConfig;
use crate::forwarding::TaggedForwarding;
use crate::forwarding::forwarding_method;
use crate::text::join_on;
use crate::text::split_on;

verus! {

/// Whether a hostname part carries Floodgate data: it announces a data version.
pub open spec fn is_floodgate_part(part: Seq<char>) -> bool {
    version_of(encode_utf8(part)) is Some
}

/// The parts that carry no Floodgate data, in order.
pub open spec fn plain_parts(parts: Seq<Seq<char>>) -> Seq<Seq<char>>
    decreases parts.len(),
{
    if parts.len() == 0 {
        parts
    } else if is_floodgate_part(parts.last()) {
        plain_parts(parts.drop_last())
    } else {
        plain_parts(parts.drop_last()).push(parts.last())
    }
}

/// How many parts carry Floodgate data.
pub open spec fn floodgate_part_count(parts: Seq<Seq<char>>) -> nat
    decreases parts.len(),
{
    if parts.len() == 0 {
        0
    } else if is_floodgate_part(parts.last()) {
        floodgate_part_count(parts.drop_last()) + 1
    } else {
        floodgate_part_count(parts.drop_last())
    }
}

proof fn lemma_scan_ok(
    key: Seq<u8>,
    education_enabled: bool,
    parts: Seq<Seq<char>>,
    clean: Seq<Seq<char>>,
    found: Option<FloodgateDataView>,
)
    requires
        scan_parts(key, education_enabled, parts) == Ok::<(Seq<Seq<char>>, Option<FloodgateDataView>), Seq<char>>((clean, found)),
    ensures
        clean == plain_parts(parts),
        found is None <==> floodgate_part_count(parts) == 0,
        found is Some <==> floodgate_part_count(parts) == 1,
        found matches Some(d) ==> (d.education ==> education_enabled),
        forall|i: int|
            0 <= i < parts.len() && is_floodgate_part(#[trigger] parts[i]) ==> version_of(encode_utf8(parts[i])) == Some(0int),
        found matches Some(d) ==> exists|i: int|
            0 <= i < parts.len() && is_floodgate_part(#[trigger] parts[i]) && decrypt_spec(key, encode_utf8(parts[i])) is Ok
                && parse_data_spec(decrypt_spec(key, encode_utf8(parts[i]))->Ok_0) == Ok::<FloodgateDataView, Seq<char>>(d),
    decreases parts.len(),
{
    if parts.len() > 0 {
        let prev = scan_parts(key, education_enabled, parts.drop_last());
        match prev {
            Ok((c0, f0)) => {
                let init = parts.drop_last();
                lemma_scan_ok(key, education_enabled, init, c0, f0);
                crate::floodgate::lemma_scan_step_shape(key, education_enabled, c0, f0, parts.last());
                assert forall|i: int|
                    0 <= i < parts.len() && is_floodgate_part(#[trigger] parts[i]) implies version_of(encode_utf8(parts[i])) == Some(0int) by {
                    if i < init.len() {
                        assert(parts[i] == init[i]);
                    }
                }
                if found is Some {
                    if is_floodgate_part(parts.last()) {
                        let k = parts.len() - 1;
                        assert(is_floodgate_part(parts[k]));
                    } else {
                        let j = choose|i: int|
                            0 <= i < init.len() && is_floodgate_part(#[trigger] init[i]) && decrypt_spec(key, encode_utf8(init[i])) is Ok
                                && parse_data_spec(decrypt_spec(key, encode_utf8(init[i]))->Ok_0) == Ok::<FloodgateDataView, Seq<char>>(found->0);
                        assert(parts[j] == init[j]);
                    }
                }
            },
            Err(_) => {},
        }
    }
}

proof fn lemma_scan_plain(key: Seq<u8>, education_enabled: bool, parts: Seq<Seq<char>>)
    requires
        forall|i: int| 0 <= i < parts.len() ==> !is_floodgate_part(#[trigger] parts[i]),
    ensures
        scan_parts(key, education_enabled, parts) == Ok::<(Seq<Seq<char>>, Option<FloodgateDataView>), Seq<char>>((parts, None)),
    decreases parts.len(),
{
    if parts.len() > 0 {
        let init = parts.drop_last();
        assert forall|i: int| 0 <= i < init.len() implies !is_floodgate_part(#[trigger] init[i]) by {
            assert(init[i] == parts[i]);
        }
        lemma_scan_plain(key, education_enabled, init);
        assert(!is_floodgate_part(parts[parts.len() - 1]));
        crate::floodgate::lemma_scan_step_shape(key, education_enabled, init, None, parts.last());
        assert(init.push(parts.last()) =~= parts);
    } else {
        assert(parts =~= Seq::<Seq<char>>::empty());
    }
}

proof fn lemma_plain_parts_free(parts: Seq<Seq<char>>)
    requires
        forall|i: int| 0 <= i < parts.len() ==> !(#[trigger] parts[i]).contains('\0'),
    ensures
        forall|i: int| 0 <= i < plain_parts(parts).len() ==> !(#[trigger] plain_parts(parts)[i]).contains('\0'),
        forall|i: int| 0 <= i < plain_parts(parts).len() ==> !is_floodgate_part(#[trigger] plain_parts(parts)[i]),
    decreases parts.len(),
{
    if parts.len() > 0 {
        let init = parts.drop_last();
        assert forall|i: int| 0 <= i < init.len() implies !(#[trigger] init[i]).contains('\0') by {
            assert(init[i] == parts[i]);
        }
        lemma_plain_parts_free(init);
        assert(!parts[parts.len() - 1].contains('\0'));
        let p = plain_parts(parts);
        let q = plain_parts(init);
        if !is_floodgate_part(parts.last()) {
            assert forall|i: int| 0 <= i < p.len() implies !(#[trigger] p[i]).contains('\0') && !is_floodgate_part(p[i]) by {
                if i < q.len() {
                    assert(p[i] == q[i]);
                } else {
                    assert(p[i] == parts.last());
                }
            }
        }
    }
}

/// With Floodgate off (no key), every hostname is kept as it is and carries no data.
pub proof fn law_disabled_keeps_hostname(s: FloodgateSettingsView, hostname: Seq<char>)
    requires
        s.key is None,
    ensures
        parse_hostname_spec(s, hostname) == Ok::<(Seq<char>, Option<FloodgateDataView>), Seq<char>>((hostname, None)),
{
}

/// A hostname none of whose parts carries Floodgate data is kept as it is.
pub proof fn law_plain_hostname_kept(s: FloodgateSettingsView, hostname: Seq<char>)
    requires
        forall|i: int|
            0 <= i < split_on(hostname, '\0').len() ==> !is_floodgate_part(#[trigger] split_on(hostname, '\0')[i]),
    ensures
        parse_hostname_spec(s, hostname) == Ok::<(Seq<char>, Option<FloodgateDataView>), Seq<char>>((hostname, None)),
{
    if let Some(key) = s.key {
        lemma_scan_plain(key, s.education_enabled, split_on(hostname, '\0'));
    }
}

/// When data is read, the hostname had exactly one Floodgate part; the returned hostname
/// is the other parts joined by NUL, and none of its parts carries Floodgate data.
pub proof fn law_payload_removed(
    s: FloodgateSettingsView,
    hostname: Seq<char>,
    rest: Seq<char>,
    data: FloodgateDataView,
)
    requires
        parse_hostname_spec(s, hostname) == Ok::<(Seq<char>, Option<FloodgateDataView>), Seq<char>>((rest, Some(data))),
    ensures
        floodgate_part_count(split_on(hostname, '\0')) == 1,
        rest == join_on(plain_parts(split_on(hostname, '\0')), '\0'),
        forall|i: int| 0 <= i < split_on(rest, '\0').len() ==> !is_floodgate_part(#[trigger] split_on(rest, '\0')[i]),
{
    let parts = split_on(hostname, '\0');
    let key = s.key->0;
    let r = scan_parts(key, s.education_enabled, parts);
    let (clean, found) = r->Ok_0;
    lemma_scan_ok(key, s.education_enabled, parts, clean, found);
    crate::text::lemma_split_on_pieces_free(hostname, '\0');
    lemma_plain_parts_free(parts);
    if clean.len() >= 1 {
        crate::text::law_split_join(clean, '\0');
    } else {
        assert(rest == Seq::<char>::empty());
        assert(split_on(rest, '\0') =~= seq![Seq::<char>::empty()]);
        assert(encode_utf8(Seq::<char>::empty()) =~= Seq::<u8>::empty());
    }
}

/// A hostname with two or more Floodgate parts is refused.
pub proof fn law_single_payload(s: FloodgateSettingsView, hostname: Seq<char>)
    requires
        s.key is Some,
        floodgate_part_count(split_on(hostname, '\0')) >= 2,
    ensures
        parse_hostname_spec(s, hostname) is Err,
{
    let parts = split_on(hostname, '\0');
    let key = s.key->0;
    match scan_parts(key, s.education_enabled, parts) {
        Ok((clean, found)) => {
            lemma_scan_ok(key, s.education_enabled, parts, clean, found);
        },
        Err(_) => {},
    }
}

/// Education data is only ever returned when education support is on.
pub proof fn law_education_needs_support(
    s: FloodgateSettingsView,
    hostname: Seq<char>,
    rest: Seq<char>,
    data: FloodgateDataView,
)
    requires
        parse_hostname_spec(s, hostname) == Ok::<(Seq<char>, Option<FloodgateDataView>), Seq<char>>((rest, Some(data))),
        data.education,
    ensures
        s.education_enabled,
{
    let parts = split_on(hostname, '\0');
    let key = s.key->0;
    let (clean, found) = scan_parts(key, s.education_enabled, parts)->Ok_0;
    lemma_scan_ok(key, s.education_enabled, parts, clean, found);
}

/// With Floodgate on, a hostname that comes back without data had no part that
/// announces a Floodgate version, and it comes back unchanged.
pub proof fn law_no_data_means_no_payload(s: FloodgateSettingsView, hostname: Seq<char>, rest: Seq<char>)
    requires
        s.key is Some,
        parse_hostname_spec(s, hostname) == Ok::<(Seq<char>, Option<FloodgateDataView>), Seq<char>>((rest, None)),
    ensures
        floodgate_part_count(split_on(hostname, '\0')) == 0,
        forall|i: int|
            0 <= i < split_on(hostname, '\0').len() ==> !is_floodgate_part(#[trigger] split_on(hostname, '\0')[i]),
        rest == hostname,
{
    let parts = split_on(hostname, '\0');
    let key = s.key->0;
    let (clean, found) = scan_parts(key, s.education_enabled, parts)->Ok_0;
    lemma_scan_ok(key, s.education_enabled, parts, clean, found);
    lemma_count_zero(parts);
}

proof fn lemma_count_zero(parts: Seq<Seq<char>>)
    requires
        floodgate_part_count(parts) == 0,
    ensures
        forall|i: int| 0 <= i < parts.len() ==> !is_floodgate_part(#[trigger] parts[i]),
    decreases parts.len(),
{
    if parts.len() > 0 {
        let init = parts.drop_last();
        lemma_count_zero(init);
        assert forall|i: int| 0 <= i < parts.len() implies !is_floodgate_part(#[trigger] parts[i]) by {
            if i < init.len() {
                assert(parts[i] == init[i]);
            }
        }
    }
}

/// A configuration in the tagged form selects the method it names.
pub proof fn law_tagged_forwarding_kept(t: TaggedForwarding)
    ensures
        forwarding_method(ForwardingConfig::Tagged(t)) == t,
{
}

/// The UUID of a Bedrock (non-education) player is the XUID: high half zero, low half
/// the XUID read as an `i64`, in two's complement.
pub proof fn law_bedrock_uuid_is_xuid(s: FloodgateSettingsView, d: FloodgateDataView, x: i64)
    requires
        !d.education,
        parse_i64_spec(d.xuid) == Some(x),
    ensures
        game_profile_spec(s, d) matches Ok((_name, u)) && u as int == (if x >= 0 {
            x as int
        } else {
            x as int + 0x1_0000_0000_0000_0000
        }),
{
    assert((x as u64) as int == (if x >= 0 { x as int } else { x as int + 0x1_0000_0000_0000_0000 })) by (bit_vector);
}

/// A Bedrock player whose XUID is not an `i64` gets no profile.
pub proof fn law_bedrock_xuid_must_parse(s: FloodgateSettingsView, d: FloodgateDataView)
    requires
        !d.education,
        parse_i64_spec(d.xuid) is None,
    ensures
        game_profile_spec(s, d) == Err::<(Seq<char>, u128), Seq<char>>("Floodgate xuid is not a valid 64-bit integer"@),
{
}

/// A record with an accepted shape (13 fields, or 16 with `1` in the 14th) and a proxy
/// flag of `0` or `1` is read, whether or not it is an education record: the username
/// is its 2nd field, the XUID its 3rd, and an education record's tenant its 15th.
pub proof fn law_record_accepted(text: Seq<char>)
    requires
        split_on(text, '\0').len() == 13 || (split_on(text, '\0').len() == 16 && split_on(text, '\0')[13] == seq!['1']),
        split_on(text, '\0')[9] == seq!['0'] || split_on(text, '\0')[9] == seq!['1'],
    ensures
        parse_data_spec(text) matches Ok(d) && d.username == split_on(text, '\0')[1] && d.xuid == split_on(text, '\0')[2]
            && d.education == (split_on(text, '\0').len() == 16) && d.tenant_id == (if split_on(text, '\0').len() == 16 {
            split_on(text, '\0')[14]
        } else {
            Seq::<char>::empty()
        }),
{
}

/// A record of an accepted shape whose proxy flag is neither `0` nor `1` is refused.
pub proof fn law_bad_proxy_flag_refused(text: Seq<char>)
    requires
        split_on(text, '\0').len() == 13 || (split_on(text, '\0').len() == 16 && split_on(text, '\0')[13] == seq!['1']),
        split_on(text, '\0')[9] != seq!['0'],
        split_on(text, '\0')[9] != seq!['1'],
    ensures
        parse_data_spec(text) == Err::<FloodgateDataView, Seq<char>>("Invalid Floodgate proxy flag"@),
{
}

/// A record of any other shape is refused, whatever its proxy flag.
pub proof fn law_record_shape_refused(text: Seq<char>)
    requires
        !(split_on(text, '\0').len() == 13 || (split_on(text, '\0').len() == 16 && split_on(text, '\0')[13] == seq!['1'])),
    ensures
        parse_data_spec(text) is Err,
{
}

/// The bits of the modern education UUID: the high half is the education constant; the
/// low half holds, from the top, the object id's bits 80 to 127, its bits 64 to 75, and
/// bits 58 to 61 of its low half (`(lsb << 2) >> 60`).
pub proof fn law_modern_uuid_bits(v: u128)
    ensures
        modern_uuid_spec(v) >> 64u128 == EDUCATION_UUID_MSB as u128,
        modern_uuid_spec(v) & 0xFu128 == ((((v as u64) << 2u64) >> 60u64) as u128),
        (modern_uuid_spec(v) >> 4u128) & 0xFFFu128 == (v >> 64u128) & 0xFFFu128,
        (modern_uuid_spec(v) >> 16u128) & 0xFFFF_FFFF_FFFFu128 == v >> 80u128,
{
    let m: u64 = (v >> 64u128) as u64;
    let l: u64 = v as u64;
    assert(m as int == v as int / 0x1_0000_0000_0000_0000 && l as int == v as int % 0x1_0000_0000_0000_0000) by (bit_vector)
        requires
            m == (v >> 64u128) as u64,
            l == v as u64,
    ;
    let upper: u64 = ((m >> 16u64) << 12u64) | (m & 0xFFFu64);
    assert(upper == (m / 0x1_0000u64) * 0x1000u64 + m % 0x1000u64 && upper < 0x1000_0000_0000_0000u64) by (bit_vector)
        requires
            upper == ((m >> 16u64) << 12u64) | (m & 0xFFFu64),
    ;
    let lower: u64 = (l << 2u64) >> 60u64;
    assert(lower == (l / 0x0400_0000_0000_0000u64) % 16u64) by (bit_vector)
        requires
            lower == (l << 2u64) >> 60u64,
    ;
    let low: u64 = (upper << 4u64) | lower;
    assert(low == upper * 16u64 + lower) by (bit_vector)
        requires
            low == (upper << 4u64) | lower,
            upper < 0x1000_0000_0000_0000u64,
            lower < 16u64,
    ;
    let u: u128 = (((EDUCATION_UUID_MSB as u128) << 64u128) | (low as u128));
    assert(u as int == EDUCATION_UUID_MSB as int * 0x1_0000_0000_0000_0000 + low as int) by (bit_vector)
        requires
            u == (((EDUCATION_UUID_MSB as u128) << 64u128) | (low as u128)),
    ;
    assert(modern_uuid_spec(v) == u);
    assert(u >> 64u128 == EDUCATION_UUID_MSB as u128
        && u & 0xFu128 == (((l << 2u64) >> 60u64) as u128)
        && (u >> 4u128) & 0xFFFu128 == (v >> 64u128) & 0xFFFu128
        && (u >> 16u128) & 0xFFFF_FFFF_FFFFu128 == v >> 80u128) by (bit_vector)
        requires
            u == (((EDUCATION_UUID_MSB as u128) << 64u128) | (low as u128)),
            low == (upper << 4u64) | lower,
            upper == ((m >> 16u64) << 12u64) | (m & 0xFFFu64),
            lower == (l << 2u64) >> 60u64,
            m == (v >> 64u128) as u64,
            l == v as u64,
            EDUCATION_UUID_MSB == 0x0000_0001_0000_0001u64,
    ;
}

/// Settings built from a configuration take every setting from it: education support is
/// on exactly when `education` is set, whatever UUID format is chosen.
pub proof fn law_from_config_fields(c: EnabledFloodgateConfig, key_file: Result<Seq<u8>, Seq<char>>)
    ensures
        from_config_spec(c, key_file) is Ok <==> (prefix_allowed(c.username_prefix@) && prefix_allowed(c.education_username_prefix@)
            && key_file is Ok && key_file->Ok_0.len() == 16),
        from_config_spec(c, key_file) matches Ok(v) ==> {
            &&& v.education_enabled == c.education
            &&& v.education_uuid_legacy == c.education_uuid_legacy
            &&& v.replace_spaces == c.replace_spaces
            &&& v.username_prefix == c.username_prefix@
            &&& v.education_prefix == c.education_username_prefix@
            &&& v.key == Some(key_file->Ok_0)
        },
{
}

/// In the structured form, Velocity forwarding when it is enabled, whatever the
/// BungeeCord table holds; else BungeeGuard or legacy BungeeCord forwarding when that is
/// enabled; else none.
pub proof fn law_structured_forwarding(s: StructuredForwarding)
    ensures
        s.velocity.enabled ==> forwarding_method(ForwardingConfig::Structured(s)) == (TaggedForwarding::Modern { secret: s.velocity.secret }),
        !s.velocity.enabled && s.bungee_cord.enabled && s.bungee_cord.bungee_guard
            ==> forwarding_method(ForwardingConfig::Structured(s)) == (TaggedForwarding::BungeeGuard { tokens: s.bungee_cord.tokens }),
        !s.velocity.enabled && s.bungee_cord.enabled && !s.bungee_cord.bungee_guard
            ==> forwarding_method(ForwardingConfig::Structured(s)) is Legacy,
        !s.velocity.enabled && !s.bungee_cord.enabled ==> forwarding_method(ForwardingConfig::Structured(s)) is Disabled,
{
}

/// A part that starts with the Floodgate header announces version 0.
pub proof fn law_header_announces_version_zero(rest: Seq<u8>)
    ensures
        version_of(floodgate_header() + rest) == Some(0int),
{
    let b = floodgate_header() + rest;
    assert(b.take(11) =~= floodgate_identifier());
    assert(b[11] == 62u8);
}

/// A part announces a version exactly when it starts with the identifier followed by one
/// more byte; the version is that byte counted from `>`.
pub proof fn law_version_from_identifier(b: Seq<u8>)
    ensures
        (version_of(b) is Some) <==> (b.len() > 11 && b.take(11) == floodgate_identifier()),
        version_of(b) is Some ==> version_of(b)->0 + 62 == b[11] as int,
{
}

/// With Floodgate on, a hostname with a part that announces a version other than 0 is
/// refused.
pub proof fn law_unsupported_version_refused(s: FloodgateSettingsView, hostname: Seq<char>, i: int)
    requires
        s.key is Some,
        0 <= i < split_on(hostname, '\0').len(),
        version_of(encode_utf8(split_on(hostname, '\0')[i])) is Some,
        version_of(encode_utf8(split_on(hostname, '\0')[i])) != Some(0int),
    ensures
        parse_hostname_spec(s, hostname) is Err,
{
    let parts = split_on(hostname, '\0');
    let key = s.key->0;
    if let Ok((clean, found)) = scan_parts(key, s.education_enabled, parts) {
        lemma_scan_ok(key, s.education_enabled, parts, clean, found);
        assert(is_floodgate_part(parts[i]));
    }
}

/// The data returned for a hostname is what one of its Floodgate parts decrypts to with
/// the configured key.
pub proof fn law_data_from_payload(
    s: FloodgateSettingsView,
    hostname: Seq<char>,
    rest: Seq<char>,
    data: FloodgateDataView,
)
    requires
        parse_hostname_spec(s, hostname) == Ok::<(Seq<char>, Option<FloodgateDataView>), Seq<char>>((rest, Some(data))),
    ensures
        exists|i: int|
            0 <= i < split_on(hostname, '\0').len() && is_floodgate_part(#[trigger] split_on(hostname, '\0')[i])
                && decrypt_spec(s.key->0, encode_utf8(split_on(hostname, '\0')[i])) is Ok
                && parse_data_spec(decrypt_spec(s.key->0, encode_utf8(split_on(hostname, '\0')[i]))->Ok_0)
                == Ok::<FloodgateDataView, Seq<char>>(data),
{
    let parts = split_on(hostname, '\0');
    let key = s.key->0;
    let (clean, found) = scan_parts(key, s.education_enabled, parts)->Ok_0;
    lemma_scan_ok(key, s.education_enabled, parts, clean, found);
}

/// The name of a player: the prefix for the player's kind, then as many leading
/// characters of the player's name as fit with it in 16 bytes of UTF-8 (one more would
/// not fit), with spaces turned into underscores when the settings ask for it.
pub proof fn law_profile_name(s: FloodgateSettingsView, d: FloodgateDataView)
    requires
        prefix_allowed(s.username_prefix),
        prefix_allowed(s.education_prefix),
    ensures
        game_profile_spec(s, d) matches Ok((name, _u)) ==> {
            let p = if d.education { s.education_prefix } else { s.username_prefix };
            let keep = name.len() - p.len();
            &&& p.len() <= name.len() <= p.len() + d.username.len()
            &&& name == (if s.replace_spaces {
                spaces_replaced(p + d.username.take(keep))
            } else {
                p + d.username.take(keep)
            })
            &&& encode_utf8(p + d.username.take(keep)).len() <= 16
            &&& forall|k: int| keep < k <= d.username.len() ==> encode_utf8(p + #[trigger] d.username.take(k)).len() > 16
        },
{
    let p = if d.education { s.education_prefix } else { s.username_prefix };
    let room: int = 16 - encode_utf8(p).len();
    let t = crate::text::truncate_spec(d.username, room);
    crate::text::law_truncate_prefix(d.username, room);
    crate::text::law_truncate_fits(d.username, room);
    crate::text::lemma_encode_utf8_concat(p, t);
    assert(username_spec(s, d) == (if s.replace_spaces { spaces_replaced(p + t) } else { p + t }));
    assert(username_spec(s, d).len() == p.len() + t.len());
    assert forall|k: int| t.len() < k <= d.username.len() implies encode_utf8(p + #[trigger] d.username.take(k)).len() > 16 by {
        crate::text::law_truncate_longest(d.username, room, k);
        crate::text::lemma_encode_utf8_concat(p, d.username.take(k));
    }
}

/// The UUID of an education player: the legacy UUID of tenant and name when the settings
/// ask for it, else the modern UUID of the object id in the XUID field, which must parse.
pub proof fn law_education_uuid_choice(s: FloodgateSettingsView, d: FloodgateDataView)
    requires
        d.education,
    ensures
        s.education_uuid_legacy ==> (game_profile_spec(s, d) matches Ok((_n, u)) && u == legacy_uuid_spec(d.tenant_id, d.username)),
        !s.education_uuid_legacy && uuid_parse(d.xuid) is Some
            ==> (game_profile_spec(s, d) matches Ok((_n, u)) && u == modern_uuid_spec(uuid_parse(d.xuid)->0)),
        !s.education_uuid_legacy && uuid_parse(d.xuid) is None ==> game_profile_spec(s, d) is Err,
{
}

proof fn lemma_least_index(b: Seq<u8>, x: u8, i: int)
    requires
        0 <= i < b.len(),
        b[i] == x,
    ensures
        exists|j: int| 0 <= j < b.len() && b[j] == x && forall|l: int| 0 <= l < j ==> b[l] != x,
    decreases i,
{
    if exists|l: int| 0 <= l < i && b[l] == x {
        let l = choose|l: int| 0 <= l < i && b[l] == x;
        lemma_least_index(b, x, l);
    } else {
        assert(forall|l: int| 0 <= l < i ==> b[l] != x);
    }
}

proof fn lemma_first_index_found(b: Seq<u8>, x: u8)
    requires
        crate::floodgate::first_index_of(b, x) is Some,
    ensures
        0 <= crate::floodgate::first_index_of(b, x)->0 < b.len(),
        b[crate::floodgate::first_index_of(b, x)->0] == x,
{
    let i = choose|i: int| 0 <= i < b.len() && b[i] == x;
    lemma_least_index(b, x, i);
}

proof fn lemma_decrypt_steps(key: Seq<u8>, part: Seq<u8>)
    requires
        decrypt_spec(key, part) is Ok,
    ensures
        crate::floodgate::payload_texts(part) is Ok,
        crate::floodgate::cipher_inputs(
            base64_standard_decode(crate::floodgate::payload_texts(part)->Ok_0.0),
            base64_standard_decode(crate::floodgate::payload_texts(part)->Ok_0.1),
        ) is Ok,
{
}

#[verifier::spinoff_prover]
#[verifier::rlimit(60)]
proof fn lemma_payload_texts_shape(part: Seq<u8>)
    requires
        crate::floodgate::payload_texts(part) is Ok,
    ensures
        part.len() > 12,
        part.take(12) == floodgate_header(),
        part.len() - 12 <= 8192,
        ({
            let k = crate::floodgate::payload_texts(part)->Ok_0.0.len() as int;
            &&& 0 <= k < part.len() - 12
            &&& part[12 + k] == 33u8
            &&& crate::floodgate::payload_texts(part)->Ok_0.0 == part.subrange(12, 12 + k)
            &&& crate::floodgate::payload_texts(part)->Ok_0.1 == part.skip(12 + k + 1)
        }),
{
    let payload = part.skip(12);
    lemma_first_index_found(payload, 33u8);
    let k = crate::floodgate::first_index_of(payload, 33u8)->0;
    assert(payload[k] == 33u8);
    assert(payload.take(k) =~= part.subrange(12, 12 + k));
    assert(payload.skip(k + 1) =~= part.skip(12 + k + 1));
}

/// A part is only decrypted when it has the header, a payload of at most 8192 bytes
/// with a `!` whose left side decodes to a 12-byte initialisation vector and whose right
/// side decodes to between 1 and 4096 bytes of ciphertext.
pub proof fn law_decrypt_accepts_only(key: Seq<u8>, part: Seq<u8>)
    requires
        decrypt_spec(key, part) is Ok,
    ensures
        part.len() > 12,
        part.take(12) == floodgate_header(),
        part.len() - 12 <= 8192,
        exists|k: int|
            0 <= k < part.len() - 12 && #[trigger] part[12 + k] == 33u8 && base64_standard_decode(part.subrange(12, 12 + k)) is Some
                && base64_standard_decode(part.subrange(12, 12 + k))->0.len() == 12
                && base64_standard_decode(part.skip(12 + k + 1)) is Some
                && 1 <= base64_standard_decode(part.skip(12 + k + 1))->0.len() <= 4096,
{
    lemma_decrypt_steps(key, part);
    lemma_payload_texts_shape(part);
    let k = crate::floodgate::payload_texts(part)->Ok_0.0.len() as int;
    assert(part[12 + k] == 33u8);
}

} // verus!
