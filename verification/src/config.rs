use vstd::prelude::*;

verus! {

/// The validated, immutable tunables of the tracker, loaded once at
/// startup and shared read-only by every component.
#[derive(Clone, Debug)]
pub struct Config {
    /// Seconds between scheduled flushes of accumulated changes to the
    /// durable store.
    pub flush_interval: u64,
    /// How many peers an announce response holds when the client sends no
    /// numwant.
    pub numwant_default: usize,
    /// The cap on a client-requested numwant.
    pub numwant_max: usize,
    /// Lower bound, in seconds, of the next-announce interval handed back
    /// to a client.
    pub announce_min: u32,
    /// Upper bound, in seconds, of the next-announce interval.
    pub announce_max: u32,
    /// Percent factor applied to announced upload deltas; 100 is neutral,
    /// 200 doubles the credited upload.
    pub upload_factor: u8,
    /// Percent factor applied to announced download deltas; 0 is global
    /// freeleech.
    pub download_factor: u8,
    /// Seconds between expiry sweeps over the peer store.
    pub peer_expiry_interval: u64,
    /// Seconds since the last announce before a peer is marked inactive.
    pub active_peer_ttl: u64,
    /// Seconds since the last announce before a peer is erased entirely.
    pub inactive_peer_ttl: u64,
    /// Site key that gates the administrative interface; must be at least
    /// 32 bytes so it is not trivially guessable.
    pub apikey: Vec<u8>,
}

/// Which configuration value an error is about.
#[derive(Clone, Copy, Debug, PartialEq, Eq, Structural)]
pub enum ConfigKey {
    FlushInterval,
    NumwantDefault,
    NumwantMax,
    AnnounceMin,
    AnnounceMax,
    UploadFactor,
    DownloadFactor,
    PeerExpiryInterval,
    ActivePeerTtl,
    InactivePeerTtl,
    ApiKey,
}

/// Why configuration loading failed. Every failure names the value it is
/// about; the process must not start serving traffic on any of them.
#[derive(Clone, Copy, Debug, PartialEq, Eq, Structural)]
pub enum ConfigError {
    /// No value was supplied for the key.
    Missing(ConfigKey),
    /// The supplied value is not a decimal number that fits the field.
    NotANumber(ConfigKey),
    /// The API key is shorter than 32 bytes.
    ApiKeyTooShort,
    /// The announce interval window has its minimum above its maximum.
    AnnounceWindowInverted,
}

/// The raw, still-unparsed configuration values as the host hands them
/// over, each `None` when its source had no value at all.
pub struct RawSettings {
    pub flush_interval: Option<Vec<u8>>,
    pub numwant_default: Option<Vec<u8>>,
    pub numwant_max: Option<Vec<u8>>,
    pub announce_min: Option<Vec<u8>>,
    pub announce_max: Option<Vec<u8>>,
    pub upload_factor: Option<Vec<u8>>,
    pub download_factor: Option<Vec<u8>>,
    pub peer_expiry_interval: Option<Vec<u8>>,
    pub active_peer_ttl: Option<Vec<u8>>,
    pub inactive_peer_ttl: Option<Vec<u8>>,
    pub apikey: Option<Vec<u8>>,
}

pub open spec fn is_digit(b: u8) -> bool {
    48 <= b <= 57
}

pub open spec fn all_digits(s: Seq<u8>) -> bool {
    forall|i: int| 0 <= i < s.len() ==> is_digit(#[trigger] s[i])
}

/// The number a digit string denotes, most significant digit first.
pub open spec fn dec_value(s: Seq<u8>) -> int
    decreases s.len(),
{
    if s.len() == 0 {
        0
    } else {
        dec_value(s.drop_last()) * 10 + (s.last() - 48)
    }
}

/// A nonempty digit string whose value does not exceed the bound.
pub open spec fn numeric_within(s: Seq<u8>, bound: int) -> bool {
    s.len() > 0 && all_digits(s) && dec_value(s) <= bound
}

pub proof fn lemma_dec_value_nonneg(s: Seq<u8>)
    requires
        all_digits(s),
    ensures
        dec_value(s) >= 0,
    decreases s.len(),
{
    if s.len() > 0 {
        assert(all_digits(s.drop_last()));
        lemma_dec_value_nonneg(s.drop_last());
    }
}

/// A digit string's value only grows as digits are appended.
pub proof fn lemma_dec_value_prefix(s: Seq<u8>, j: int)
    requires
        all_digits(s),
        0 <= j <= s.len(),
    ensures
        dec_value(s.take(j)) <= dec_value(s),
    decreases s.len(),
{
    if j == s.len() {
        assert(s.take(j) =~= s);
    } else {
        assert(all_digits(s.drop_last()));
        assert(s.take(j) =~= s.drop_last().take(j));
        lemma_dec_value_prefix(s.drop_last(), j);
        lemma_dec_value_nonneg(s.drop_last());
    }
}

/// Parses a nonempty decimal byte string into a `u64`. Returns `Some`
/// exactly when the input is all digits and its value fits.
pub fn parse_decimal(s: &Vec<u8>) -> (r: Option<u64>)
    ensures
        r matches Some(n) ==> n == dec_value(s@),
        (r is Some) <==> numeric_within(s@, u64::MAX as int),
{
    if s.len() == 0 {
        return None;
    }
    let mut acc: u64 = 0;
    let mut i: usize = 0;
    while i < s.len()
        invariant
            0 < s@.len(),
            0 <= i <= s@.len(),
            all_digits(s@.take(i as int)),
            acc == dec_value(s@.take(i as int)),
        decreases s@.len() - i,
    {
        let b = s[i];
        if b < 48 || b > 57 {
            assert(!is_digit(s@[i as int]));
            return None;
        }
        let d: u64 = (b - 48) as u64;
        if acc > (u64::MAX - d) / 10 {
            proof {
                let x = u64::MAX as int - d;
                vstd::arithmetic::div_mod::lemma_fundamental_div_mod(x, 10);
                assert(acc * 10 + d > u64::MAX as int);
                assert(s@.take(i + 1 as int).drop_last() =~= s@.take(i as int));
                assert(s@.take(i + 1 as int).last() == s@[i as int]);
                assert(dec_value(s@.take(i + 1 as int)) > u64::MAX as int);
                if all_digits(s@) {
                    lemma_dec_value_prefix(s@, i + 1 as int);
                }
            }
            return None;
        }
        proof {
            assert(s@.take(i + 1 as int).drop_last() =~= s@.take(i as int));
            assert(s@.take(i + 1 as int).last() == s@[i as int]);
        }
        acc = acc * 10 + d;
        i += 1;
    }
    proof {
        assert(s@.take(s@.len() as int) =~= s@);
    }
    Some(acc)
}

/// Parses one numeric configuration value, bounded by the width of the
/// field it is destined for; failures name the key.
fn parse_bounded(v: &Option<Vec<u8>>, bound: u64, key: ConfigKey) -> (r: Result<u64, ConfigError>)
    ensures
        (v is None) ==> (r matches Err(e) && e == ConfigError::Missing(key)),
        v matches Some(b) ==> (!numeric_within(b@, bound as int) ==> (r matches Err(e) && e
            == ConfigError::NotANumber(key))),
        v matches Some(b) ==> (numeric_within(b@, bound as int) ==> (r matches Ok(n) && n
            == dec_value(b@))),
{
    match v {
        None => Err(ConfigError::Missing(key)),
        Some(b) => {
            match parse_decimal(b) {
                None => Err(ConfigError::NotANumber(key)),
                Some(n) => {
                    if n <= bound {
                        Ok(n)
                    } else {
                        Err(ConfigError::NotANumber(key))
                    }
                },
            }
        },
    }
}

impl Config {
    /// A configuration fit to serve with: the API key is long enough to
    /// gate the admin surface and the announce window is a real interval.
    pub open spec fn valid(self) -> bool {
        self.apikey@.len() >= 32 && self.announce_min <= self.announce_max
    }

    /// Builds and validates the configuration from raw source values.
    /// Succeeds exactly when every value is present and well-formed; any
    /// failure is fatal to startup and names what was wrong.
    pub fn from_values(raw: RawSettings) -> (r: Result<Config, ConfigError>)
        ensures
            (r is Ok) <==> settings_ok(raw),
            r matches Ok(c) ==> c == parsed_config(raw) && c.valid(),
            r matches Err(e) ==> e == first_error(raw),
    {
        let flush_interval = parse_bounded(
            &raw.flush_interval,
            u64::MAX,
            ConfigKey::FlushInterval,
        )?;
        let numwant_default = parse_bounded(
            &raw.numwant_default,
            usize::MAX as u64,
            ConfigKey::NumwantDefault,
        )?;
        let numwant_max = parse_bounded(&raw.numwant_max, usize::MAX as u64, ConfigKey::NumwantMax)?;
        let announce_min = parse_bounded(&raw.announce_min, u32::MAX as u64, ConfigKey::AnnounceMin)?;
        let announce_max = parse_bounded(&raw.announce_max, u32::MAX as u64, ConfigKey::AnnounceMax)?;
        let upload_factor = parse_bounded(&raw.upload_factor, 255, ConfigKey::UploadFactor)?;
        let download_factor = parse_bounded(&raw.download_factor, 255, ConfigKey::DownloadFactor)?;
        let peer_expiry_interval = parse_bounded(
            &raw.peer_expiry_interval,
            u64::MAX,
            ConfigKey::PeerExpiryInterval,
        )?;
        let active_peer_ttl = parse_bounded(&raw.active_peer_ttl, u64::MAX, ConfigKey::ActivePeerTtl)?;
        let inactive_peer_ttl = parse_bounded(
            &raw.inactive_peer_ttl,
            u64::MAX,
            ConfigKey::InactivePeerTtl,
        )?;
        let apikey = match raw.apikey {
            None => {
                return Err(ConfigError::Missing(ConfigKey::ApiKey));
            },
            Some(k) => k,
        };
        if apikey.len() < 32 {
            return Err(ConfigError::ApiKeyTooShort);
        }
        if announce_min > announce_max {
            return Err(ConfigError::AnnounceWindowInverted);
        }
        Ok(
            Config {
                flush_interval,
                numwant_default: numwant_default as usize,
                numwant_max: numwant_max as usize,
                announce_min: announce_min as u32,
                announce_max: announce_max as u32,
                upload_factor: upload_factor as u8,
                download_factor: download_factor as u8,
                peer_expiry_interval,
                active_peer_ttl,
                inactive_peer_ttl,
                apikey,
            },
        )
    }
}

/// Whether one optional raw value is a well-formed number within a bound.
pub open spec fn field_ok(v: Option<Vec<u8>>, bound: int) -> bool {
    v matches Some(b) && numeric_within(b@, bound)
}

/// The parsed value of a raw field (meaningful only when it is ok).
pub open spec fn field_value(v: Option<Vec<u8>>) -> int {
    dec_value(v->Some_0@)
}

/// Everything `from_values` checks, stated in one place: every field
/// present and numeric within its width, the API key present and at least
/// 32 bytes, and the announce window the right way round.
pub open spec fn settings_ok(raw: RawSettings) -> bool {
    &&& field_ok(raw.flush_interval, u64::MAX as int)
    &&& field_ok(raw.numwant_default, usize::MAX as int)
    &&& field_ok(raw.numwant_max, usize::MAX as int)
    &&& field_ok(raw.announce_min, u32::MAX as int)
    &&& field_ok(raw.announce_max, u32::MAX as int)
    &&& field_ok(raw.upload_factor, 255)
    &&& field_ok(raw.download_factor, 255)
    &&& field_ok(raw.peer_expiry_interval, u64::MAX as int)
    &&& field_ok(raw.active_peer_ttl, u64::MAX as int)
    &&& field_ok(raw.inactive_peer_ttl, u64::MAX as int)
    &&& raw.apikey matches Some(k) && k@.len() >= 32
    &&& field_value(raw.announce_min) <= field_value(raw.announce_max)
}

/// The configuration a well-formed raw set denotes.
pub open spec fn parsed_config(raw: RawSettings) -> Config {
    Config {
        flush_interval: field_value(raw.flush_interval) as u64,
        numwant_default: field_value(raw.numwant_default) as usize,
        numwant_max: field_value(raw.numwant_max) as usize,
        announce_min: field_value(raw.announce_min) as u32,
        announce_max: field_value(raw.announce_max) as u32,
        upload_factor: field_value(raw.upload_factor) as u8,
        download_factor: field_value(raw.download_factor) as u8,
        peer_expiry_interval: field_value(raw.peer_expiry_interval) as u64,
        active_peer_ttl: field_value(raw.active_peer_ttl) as u64,
        inactive_peer_ttl: field_value(raw.inactive_peer_ttl) as u64,
        apikey: raw.apikey->Some_0,
    }
}

/// The error `from_values` reports for an ill-formed raw set: the fields
/// are checked in a fixed order and the first offender is named.
pub open spec fn first_error(raw: RawSettings) -> ConfigError {
    if raw.flush_interval is None {
        ConfigError::Missing(ConfigKey::FlushInterval)
    } else if !field_ok(raw.flush_interval, u64::MAX as int) {
        ConfigError::NotANumber(ConfigKey::FlushInterval)
    } else if raw.numwant_default is None {
        ConfigError::Missing(ConfigKey::NumwantDefault)
    } else if !field_ok(raw.numwant_default, usize::MAX as int) {
        ConfigError::NotANumber(ConfigKey::NumwantDefault)
    } else if raw.numwant_max is None {
        ConfigError::Missing(ConfigKey::NumwantMax)
    } else if !field_ok(raw.numwant_max, usize::MAX as int) {
        ConfigError::NotANumber(ConfigKey::NumwantMax)
    } else if raw.announce_min is None {
        ConfigError::Missing(ConfigKey::AnnounceMin)
    } else if !field_ok(raw.announce_min, u32::MAX as int) {
        ConfigError::NotANumber(ConfigKey::AnnounceMin)
    } else if raw.announce_max is None {
        ConfigError::Missing(ConfigKey::AnnounceMax)
    } else if !field_ok(raw.announce_max, u32::MAX as int) {
        ConfigError::NotANumber(ConfigKey::AnnounceMax)
    } else if raw.upload_factor is None {
        ConfigError::Missing(ConfigKey::UploadFactor)
    } else if !field_ok(raw.upload_factor, 255) {
        ConfigError::NotANumber(ConfigKey::UploadFactor)
    } else if raw.download_factor is None {
        ConfigError::Missing(ConfigKey::DownloadFactor)
    } else if !field_ok(raw.download_factor, 255) {
        ConfigError::NotANumber(ConfigKey::DownloadFactor)
    } else if raw.peer_expiry_interval is None {
        ConfigError::Missing(ConfigKey::PeerExpiryInterval)
    } else if !field_ok(raw.peer_expiry_interval, u64::MAX as int) {
        ConfigError::NotANumber(ConfigKey::PeerExpiryInterval)
    } else if raw.active_peer_ttl is None {
        ConfigError::Missing(ConfigKey::ActivePeerTtl)
    } else if !field_ok(raw.active_peer_ttl, u64::MAX as int) {
        ConfigError::NotANumber(ConfigKey::ActivePeerTtl)
    } else if raw.inactive_peer_ttl is None {
        ConfigError::Missing(ConfigKey::InactivePeerTtl)
    } else if !field_ok(raw.inactive_peer_ttl, u64::MAX as int) {
        ConfigError::NotANumber(ConfigKey::InactivePeerTtl)
    } else if raw.apikey is None {
        ConfigError::Missing(ConfigKey::ApiKey)
    } else if raw.apikey->Some_0@.len() < 32 {
        ConfigError::ApiKeyTooShort
    } else {
        ConfigError::AnnounceWindowInverted
    }
}

} // verus!
