//! The storage coding settings: which algorithms are active, whether a
//! fallback algorithm is in use, and the policy that admits fallbacks.

use vstd::prelude::*;
use vstd::string::StrSliceExecFns;
use vstd::utf8::encode_utf8;
use crate::text::{ascii_lower, eq_ignore_ascii_case};

verus! {

/// Whether two strings are equal ignoring ASCII case (by their bytes).
pub open spec fn eq_ignoring_ascii_case(a: Seq<u8>, b: Seq<u8>) -> bool {
    a.len() == b.len() && forall|i: int| 0 <= i < a.len() ==> ascii_lower(#[trigger] a[i]) == ascii_lower(b[i])
}

/// `xor` (any ASCII case) names the fallback erasure coder.
pub open spec fn spec_is_fallback_erasure(algorithm: Seq<char>) -> bool {
    eq_ignoring_ascii_case(encode_utf8(algorithm), encode_utf8("xor"@))
}

/// `rle` (any ASCII case) names the fallback compressor.
pub open spec fn spec_is_fallback_compression(algorithm: Seq<char>) -> bool {
    eq_ignoring_ascii_case(encode_utf8(algorithm), encode_utf8("rle"@))
}

fn is_fallback_erasure(algorithm: &str) -> (b: bool)
    ensures
        b == spec_is_fallback_erasure(algorithm@),
{
    eq_ignore_ascii_case(algorithm, "xor")
}

fn is_fallback_compression(algorithm: &str) -> (b: bool)
    ensures
        b == spec_is_fallback_compression(algorithm@),
{
    eq_ignore_ascii_case(algorithm, "rle")
}

/// The active coding algorithms.
#[derive(Debug)]
pub struct Algorithms {
    encryptor: String,
    erasure: String,
    fountain: String,
    compression: String,
    erasure_is_fallback: bool,
    compression_is_fallback: bool,
    erasure_emergency: bool,
    compression_emergency: bool,
}

/// The algorithms as a mathematical value.
pub struct AlgorithmsView {
    pub encryptor: Seq<char>,
    pub erasure: Seq<char>,
    pub fountain: Seq<char>,
    pub compression: Seq<char>,
    pub erasure_is_fallback: bool,
    pub compression_is_fallback: bool,
    pub erasure_emergency: bool,
    pub compression_emergency: bool,
}

impl View for Algorithms {
    type V = AlgorithmsView;

    closed spec fn view(&self) -> AlgorithmsView {
        AlgorithmsView {
            encryptor: self.encryptor@,
            erasure: self.erasure@,
            fountain: self.fountain@,
            compression: self.compression@,
            erasure_is_fallback: self.erasure_is_fallback,
            compression_is_fallback: self.compression_is_fallback,
            erasure_emergency: self.erasure_emergency,
            compression_emergency: self.compression_emergency,
        }
    }
}

impl Algorithms {
    /// The active algorithms; whether each is a fallback follows from its
    /// name.
    pub fn new(
        encryptor: &str,
        erasure: &str,
        fountain: &str,
        compression: &str,
        erasure_emergency: bool,
        compression_emergency: bool,
    ) -> (a: Self)
        ensures
            a@ == (AlgorithmsView {
                encryptor: encryptor@,
                erasure: erasure@,
                fountain: fountain@,
                compression: compression@,
                erasure_is_fallback: spec_is_fallback_erasure(erasure@),
                compression_is_fallback: spec_is_fallback_compression(compression@),
                erasure_emergency,
                compression_emergency,
            }),
    {
        Algorithms {
            encryptor: encryptor.to_owned(),
            erasure: erasure.to_owned(),
            fountain: fountain.to_owned(),
            compression: compression.to_owned(),
            erasure_is_fallback: is_fallback_erasure(erasure),
            compression_is_fallback: is_fallback_compression(compression),
            erasure_emergency,
            compression_emergency,
        }
    }

    pub fn encryptor(&self) -> (s: &str)
        ensures
            s@ == self@.encryptor,
    {
        self.encryptor.as_str()
    }

    pub fn erasure(&self) -> (s: &str)
        ensures
            s@ == self@.erasure,
    {
        self.erasure.as_str()
    }

    pub fn fountain(&self) -> (s: &str)
        ensures
            s@ == self@.fountain,
    {
        self.fountain.as_str()
    }

    pub fn compression(&self) -> (s: &str)
        ensures
            s@ == self@.compression,
    {
        self.compression.as_str()
    }

    pub fn erasure_fallback(&self) -> (b: bool)
        ensures
            b == self@.erasure_is_fallback,
    {
        self.erasure_is_fallback
    }

    pub fn compression_fallback(&self) -> (b: bool)
        ensures
            b == self@.compression_is_fallback,
    {
        self.compression_is_fallback
    }

    pub fn erasure_emergency(&self) -> (b: bool)
        ensures
            b == self@.erasure_emergency,
    {
        self.erasure_emergency
    }

    pub fn compression_emergency(&self) -> (b: bool)
        ensures
            b == self@.compression_emergency,
    {
        self.compression_emergency
    }

    /// A copy of the algorithms.
    pub fn duplicate(&self) -> (a: Self)
        ensures
            a@ == self@,
    {
        Algorithms {
            encryptor: self.encryptor.clone(),
            erasure: self.erasure.clone(),
            fountain: self.fountain.clone(),
            compression: self.compression.clone(),
            erasure_is_fallback: self.erasure_is_fallback,
            compression_is_fallback: self.compression_is_fallback,
            erasure_emergency: self.erasure_emergency,
            compression_emergency: self.compression_emergency,
        }
    }
}

// ---------------------------------------------------------------------------
// Configuration and the fallback policy
// ---------------------------------------------------------------------------

/// Rollout rules for fallback algorithms.
#[derive(Debug)]
pub struct RolloutConfig {
    pub allow_fallback_coder: bool,
    pub allow_fallback_compressor: bool,
    pub require_emergency_switch: bool,
    /// Environment variable of the emergency switch; a default name when none.
    pub emergency_switch_env: Option<String>,
}

/// The coding configuration.
#[derive(Debug)]
pub struct CodingConfig {
    pub encryption_algorithm: String,
    pub erasure_algorithm: String,
    pub data_shards: usize,
    pub parity_shards: usize,
    pub fountain_algorithm: String,
    pub fountain_symbol_size: u16,
    pub compression_algorithm: String,
    pub compression_level: i32,
    pub chunk_default_bytes: usize,
    pub chunk_ladder: Vec<usize>,
    pub rollout: RolloutConfig,
}

/// Why a configuration was refused.
#[derive(Debug)]
pub enum CodingError {
    /// A fallback algorithm that the rollout rules do not admit.
    Disabled { algorithm: String },
}

/// The component a fallback algorithm stands in for.
#[derive(Clone, Copy, Debug, PartialEq, Eq, Structural)]
pub enum FallbackComponent {
    Coder,
    Compressor,
}

/// Unicode white space, as `char::is_whitespace` and `str::trim` use it.
pub open spec fn is_white_space(c: char) -> bool {
    ('\u{9}' <= c && c <= '\u{d}') || c == ' ' || c == '\u{85}' || c == '\u{a0}' || c == '\u{1680}'
        || ('\u{2000}' <= c && c <= '\u{200a}') || c == '\u{2028}' || c == '\u{2029}' || c == '\u{202f}'
        || c == '\u{205f}' || c == '\u{3000}'
}

/// ASCII lower-casing of one character.
pub open spec fn char_lower(c: char) -> char {
    if 'A' <= c && c <= 'Z' {
        ((c as u8) + 32) as char
    } else {
        c
    }
}

/// `s` without leading and trailing white space, lower-cased (ASCII).
pub open spec fn normalized(s: Seq<char>, a: int, b: int) -> Seq<char> {
    s.subrange(a, b).map_values(|c: char| char_lower(c))
}

/// `[a, b)` is the span of `s` without its leading and trailing white space.
pub open spec fn trimmed_span(s: Seq<char>, a: int, b: int) -> bool {
    0 <= a <= b <= s.len() && (forall|i: int| 0 <= i < a ==> is_white_space(#[trigger] s[i])) && (forall|i: int|
        b <= i < s.len() ==> is_white_space(#[trigger] s[i])) && (a < b ==> !is_white_space(s[a])
        && !is_white_space(s[b - 1])) && (a == b ==> a == s.len())
}

/// An emergency switch value is on when, trimmed and lower-cased, it is
/// `1`, `true`, `yes` or `on`.
pub open spec fn switch_value_on(s: Seq<char>) -> bool {
    exists|a: int, b: int|
        trimmed_span(s, a, b) && {
            let t = #[trigger] normalized(s, a, b);
            t == seq!['1'] || t == seq!['t', 'r', 'u', 'e'] || t == seq!['y', 'e', 's'] || t == seq!['o', 'n']
        }
}

fn lower_char(c: char) -> (r: char)
    ensures
        r == char_lower(c),
{
    if 'A' <= c && c <= 'Z' {
        ((c as u8) + 32) as char
    } else {
        c
    }
}

fn white_space(c: char) -> (b: bool)
    ensures
        b == is_white_space(c),
{
    ('\u{9}' <= c && c <= '\u{d}') || c == ' ' || c == '\u{85}' || c == '\u{a0}' || c == '\u{1680}'
        || ('\u{2000}' <= c && c <= '\u{200a}') || c == '\u{2028}' || c == '\u{2029}' || c == '\u{202f}'
        || c == '\u{205f}' || c == '\u{3000}'
}

proof fn lemma_trimmed_span_unique(s: Seq<char>, a: int, b: int, a2: int, b2: int)
    requires
        trimmed_span(s, a, b),
        trimmed_span(s, a2, b2),
    ensures
        a == a2 && b == b2,
{
    if a < a2 {
        assert(is_white_space(s[a]));
    }
    if a2 < a {
        assert(is_white_space(s[a2]));
    }
    if a < b && a2 < b2 {
        if b < b2 {
            assert(is_white_space(s[b2 - 1]));
        }
        if b2 < b {
            assert(is_white_space(s[b - 1]));
        }
    }
}

/// Whether the emergency switch value (the environment variable's value,
/// none when unset) turns the switch on.
pub fn emergency_switch_active(value: Option<&str>) -> (on: bool)
    ensures
        on == (match value {
            Some(v) => switch_value_on(v@),
            None => false,
        }),
{
    let v = match value {
        Some(v) => v,
        None => return false,
    };
    let n = v.unicode_len();
    let mut a: usize = 0;
    while a < n && white_space(v.get_char(a))
        invariant
            a <= n,
            n == v@.len(),
            forall|i: int| 0 <= i < a ==> is_white_space(#[trigger] v@[i]),
        decreases n - a,
    {
        a = a + 1;
    }
    let mut b: usize = n;
    while b > a && white_space(v.get_char(b - 1))
        invariant
            a <= b <= n,
            n == v@.len(),
            forall|i: int| b <= i < n ==> is_white_space(#[trigger] v@[i]),
        decreases b - a,
    {
        b = b - 1;
    }
    proof {
        if a == b && a < n {
            assert(!is_white_space(v@[a as int]));
        }
    }
    let ghost s = v@;
    assert(a == b ==> a == n) by {
        if a == b && a < n {
        }
    }
    let len = b - a;
    let mut t: Vec<char> = Vec::new();
    let mut i: usize = a;
    while i < b
        invariant
            a <= i <= b <= n,
            n == s.len(),
            s == v@,
            t@ == s.subrange(a as int, i as int).map_values(|c: char| char_lower(c)),
        decreases b - i,
    {
        let c = lower_char(v.get_char(i));
        t.push(c);
        assert(s.subrange(a as int, i + 1).map_values(|c: char| char_lower(c)) =~= s.subrange(
            a as int,
            i as int,
        ).map_values(|c: char| char_lower(c)).push(char_lower(s[i as int])));
        i = i + 1;
    }
    let on = (len == 1 && t[0] == '1') || (len == 4 && t[0] == 't' && t[1] == 'r' && t[2] == 'u' && t[3] == 'e')
        || (len == 3 && t[0] == 'y' && t[1] == 'e' && t[2] == 's') || (len == 2 && t[0] == 'o' && t[1] == 'n');
    proof {
        assert(trimmed_span(s, a as int, b as int)) by {
            if a < b {
            }
        }
        let tn = normalized(s, a as int, b as int);
        assert(tn == t@);
        if on {
            if len == 1 {
                assert(tn =~= seq!['1']);
            } else if len == 4 {
                assert(tn =~= seq!['t', 'r', 'u', 'e']);
            } else if len == 3 {
                assert(tn =~= seq!['y', 'e', 's']);
            } else {
                assert(tn =~= seq!['o', 'n']);
            }
        } else {
            assert forall|a2: int, b2: int| trimmed_span(s, a2, b2) implies !({
                let t2 = #[trigger] normalized(s, a2, b2);
                t2 == seq!['1'] || t2 == seq!['t', 'r', 'u', 'e'] || t2 == seq!['y', 'e', 's'] || t2 == seq![
                    'o',
                    'n',
                ]
            }) by {
                lemma_trimmed_span_unique(s, a as int, b as int, a2, b2);
                if tn == seq!['1'] {
                    assert(tn[0] == '1');
                }
                if tn == seq!['t', 'r', 'u', 'e'] {
                    assert(tn[0] == 't' && tn[1] == 'r' && tn[2] == 'u' && tn[3] == 'e');
                }
                if tn == seq!['y', 'e', 's'] {
                    assert(tn[0] == 'y' && tn[1] == 'e' && tn[2] == 's');
                }
                if tn == seq!['o', 'n'] {
                    assert(tn[0] == 'o' && tn[1] == 'n');
                }
            }
        }
    }
    on
}

/// The fallback policy: `Ok(true)` under the emergency switch, `Ok(false)`
/// when the rollout admits the fallback without it, else `Disabled`.
pub fn enforce_fallback_policy(
    rollout: &RolloutConfig,
    component: FallbackComponent,
    algorithm: &str,
    emergency: bool,
) -> (r: Result<bool, CodingError>)
    ensures
        emergency ==> r matches Ok(true),
        !emergency ==> {
            let allowed = match component {
                FallbackComponent::Coder => rollout.allow_fallback_coder,
                FallbackComponent::Compressor => rollout.allow_fallback_compressor,
            };
            if !allowed || rollout.require_emergency_switch {
                r matches Err(CodingError::Disabled { algorithm: a }) && a@ == algorithm@
            } else {
                r matches Ok(false)
            }
        },
{
    if emergency {
        return Ok(true);
    }
    let allowed_flag = match component {
        FallbackComponent::Coder => rollout.allow_fallback_coder,
        FallbackComponent::Compressor => rollout.allow_fallback_compressor,
    };
    if !allowed_flag || rollout.require_emergency_switch {
        return Err(CodingError::Disabled { algorithm: algorithm.to_owned() });
    }
    Ok(false)
}

/// The active settings.
#[derive(Debug)]
pub struct StorageSettings {
    algorithms: Algorithms,
    data_shards: usize,
    parity_shards: usize,
    compression_level: i32,
    chunk_default_bytes: usize,
    chunk_ladder: Vec<usize>,
}

impl StorageSettings {
    pub closed spec fn spec_algorithms(&self) -> AlgorithmsView {
        self.algorithms@
    }

    pub closed spec fn spec_erasure_counts(&self) -> (usize, usize) {
        (self.data_shards, self.parity_shards)
    }

    pub closed spec fn spec_compression_level(&self) -> i32 {
        self.compression_level
    }

    pub closed spec fn spec_chunk_defaults(&self) -> (usize, Seq<usize>) {
        (self.chunk_default_bytes, self.chunk_ladder@)
    }
}

/// The settings of a configuration.  A fallback erasure coder (`xor`) or
/// compressor (`rle`) must pass the fallback policy, which the emergency
/// switch (already read) can force; the first refusal is returned.
pub fn settings_from_config(config: &CodingConfig, emergency: bool) -> (r: Result<StorageSettings, CodingError>)
    ensures
        match r {
            Ok(s) => {
                let erasure_fb = spec_is_fallback_erasure(config.erasure_algorithm@);
                let compression_fb = spec_is_fallback_compression(config.compression_algorithm@);
                &&& s.spec_algorithms() == (AlgorithmsView {
                    encryptor: config.encryption_algorithm@,
                    erasure: config.erasure_algorithm@,
                    fountain: config.fountain_algorithm@,
                    compression: config.compression_algorithm@,
                    erasure_is_fallback: erasure_fb,
                    compression_is_fallback: compression_fb,
                    erasure_emergency: erasure_fb && emergency,
                    compression_emergency: compression_fb && emergency,
                })
                &&& s.spec_erasure_counts() == (config.data_shards, config.parity_shards)
                &&& s.spec_compression_level() == config.compression_level
                &&& s.spec_chunk_defaults() == (config.chunk_default_bytes, config.chunk_ladder@)
                &&& (erasure_fb || compression_fb) ==> (emergency || (!config.rollout.require_emergency_switch
                    && (erasure_fb ==> config.rollout.allow_fallback_coder) && (compression_fb
                    ==> config.rollout.allow_fallback_compressor)))
            },
            Err(CodingError::Disabled { algorithm }) => algorithm@ == if spec_is_fallback_erasure(
                config.erasure_algorithm@,
            ) && (!config.rollout.allow_fallback_coder || config.rollout.require_emergency_switch) {
                config.erasure_algorithm@
            } else {
                config.compression_algorithm@
            },
        },
        r is Err <==> !emergency && ((spec_is_fallback_erasure(config.erasure_algorithm@) && (
        !config.rollout.allow_fallback_coder || config.rollout.require_emergency_switch)) || (
        spec_is_fallback_compression(config.compression_algorithm@) && (
        !config.rollout.allow_fallback_compressor || config.rollout.require_emergency_switch))),
{
    let mut erasure_emergency = false;
    let mut compression_emergency = false;
    if is_fallback_erasure(config.erasure_algorithm.as_str()) {
        erasure_emergency = enforce_fallback_policy(
            &config.rollout,
            FallbackComponent::Coder,
            config.erasure_algorithm.as_str(),
            emergency,
        )?;
    }
    if is_fallback_compression(config.compression_algorithm.as_str()) {
        compression_emergency = enforce_fallback_policy(
            &config.rollout,
            FallbackComponent::Compressor,
            config.compression_algorithm.as_str(),
            emergency,
        )?;
    }
    let algorithms = Algorithms::new(
        config.encryption_algorithm.as_str(),
        config.erasure_algorithm.as_str(),
        config.fountain_algorithm.as_str(),
        config.compression_algorithm.as_str(),
        erasure_emergency,
        compression_emergency,
    );
    let mut ladder: Vec<usize> = Vec::new();
    let mut i: usize = 0;
    while i < config.chunk_ladder.len()
        invariant
            i <= config.chunk_ladder@.len(),
            ladder@ == config.chunk_ladder@.take(i as int),
        decreases config.chunk_ladder@.len() - i,
    {
        ladder.push(config.chunk_ladder[i]);
        assert(config.chunk_ladder@.take(i + 1) =~= config.chunk_ladder@.take(i as int).push(config.chunk_ladder@[i as int]));
        i = i + 1;
    }
    assert(config.chunk_ladder@.take(config.chunk_ladder@.len() as int) =~= config.chunk_ladder@);
    Ok(StorageSettings {
        algorithms,
        data_shards: config.data_shards,
        parity_shards: config.parity_shards,
        compression_level: config.compression_level,
        chunk_default_bytes: config.chunk_default_bytes,
        chunk_ladder: ladder,
    })
}

/// A copy of the active algorithms.
pub fn algorithms(settings: &StorageSettings) -> (a: Algorithms)
    ensures
        a@ == settings.spec_algorithms(),
{
    settings.algorithms.duplicate()
}

/// The default chunk size and the chunk size ladder.
pub fn chunk_defaults(settings: &StorageSettings) -> (r: (usize, Vec<usize>))
    ensures
        (r.0, r.1@) == settings.spec_chunk_defaults(),
{
    let mut ladder: Vec<usize> = Vec::new();
    let mut i: usize = 0;
    while i < settings.chunk_ladder.len()
        invariant
            i <= settings.chunk_ladder@.len(),
            ladder@ == settings.chunk_ladder@.take(i as int),
        decreases settings.chunk_ladder@.len() - i,
    {
        ladder.push(settings.chunk_ladder[i]);
        assert(settings.chunk_ladder@.take(i + 1) =~= settings.chunk_ladder@.take(i as int).push(
            settings.chunk_ladder@[i as int],
        ));
        i = i + 1;
    }
    assert(settings.chunk_ladder@.take(settings.chunk_ladder@.len() as int) =~= settings.chunk_ladder@);
    (settings.chunk_default_bytes, ladder)
}

/// The data and parity shard counts.
pub fn erasure_counts(settings: &StorageSettings) -> (r: (usize, usize))
    ensures
        r == settings.spec_erasure_counts(),
{
    (settings.data_shards, settings.parity_shards)
}

/// The compression level.
pub fn compression_level(settings: &StorageSettings) -> (l: i32)
    ensures
        l == settings.spec_compression_level(),
{
    settings.compression_level
}

} // verus!
