//! Inspection of configuration keys and provider configuration.
//!
//! The stores themselves (process environment, configuration file,
//! keychain) are external collaborators; their lookups are performed at
//! the edge and handed in as plain values, so the decisions here are pure
//! and fully checked.

use vstd::prelude::*;
use vstd::string::StringExecFns;

use crate::strutil::{seq_contains_str, vec_contains_string};

verus! {

/// Where a configuration key's value was found.
#[derive(Clone, Copy, Debug, PartialEq, Eq, Structural)]
pub enum KeyLocation {
    Environment,
    ConfigFile,
    Keychain,
    NotFound,
}

/// What inspection reports about one key.
#[derive(Debug, PartialEq, Eq)]
pub struct KeyInfo {
    pub name: String,
    pub is_set: bool,
    pub location: KeyLocation,
    pub is_secret: bool,
    /// Only populated for non-secret keys that are set.
    pub value: Option<String>,
}

/// One key to inspect, together with what the stores returned for it:
/// the environment value, if any, and the config store's value with its
/// actual secrecy, if any.
#[derive(Debug, PartialEq, Eq)]
pub struct KeyLookup {
    pub name: String,
    pub is_secret: bool,
    pub env_value: Option<String>,
    pub config_value: Option<(String, bool)>,
}

/// What inspection must report for one lookup: the environment wins,
/// then the config store (keychain when secret), else not found; a value
/// is only reported for non-secret keys.
pub open spec fn spec_inspect_matches(l: KeyLookup, k: KeyInfo) -> bool {
    &&& k.name@ == l.name@
    &&& match l.env_value {
        Some(v) => k.is_set && k.location == KeyLocation::Environment && k.is_secret
            == l.is_secret && (if !l.is_secret {
            k.value matches Some(got) && got@ == v@
        } else {
            k.value is None
        }),
        None => match l.config_value {
            Some(pair) => k.is_set && k.location == (if pair.1 {
                KeyLocation::Keychain
            } else {
                KeyLocation::ConfigFile
            }) && k.is_secret == pair.1 && (if !pair.1 {
                k.value matches Some(got) && got@ == pair.0@
            } else {
                k.value is None
            }),
            None => !k.is_set && k.location == KeyLocation::NotFound && k.is_secret == l.is_secret
                && k.value is None,
        },
    }
}

/// Inspect one key: report whether it is set, where, and (for non-secret
/// keys) its value.
pub fn inspect_key(lookup: &KeyLookup) -> (r: KeyInfo)
    ensures
        spec_inspect_matches(*lookup, r),
{
    match &lookup.env_value {
        Some(v) => KeyInfo {
            name: lookup.name.clone(),
            is_set: true,
            location: KeyLocation::Environment,
            is_secret: lookup.is_secret,
            value: if !lookup.is_secret {
                Some(v.clone())
            } else {
                None
            },
        },
        None => match &lookup.config_value {
            Some(pair) => KeyInfo {
                name: lookup.name.clone(),
                is_set: true,
                location: if pair.1 {
                    KeyLocation::Keychain
                } else {
                    KeyLocation::ConfigFile
                },
                is_secret: pair.1,
                value: if !pair.1 {
                    Some(pair.0.clone())
                } else {
                    None
                },
            },
            None => KeyInfo {
                name: lookup.name.clone(),
                is_set: false,
                location: KeyLocation::NotFound,
                is_secret: lookup.is_secret,
                value: None,
            },
        },
    }
}

/// Inspect several keys at once, in order.
pub fn inspect_keys(lookups: &Vec<KeyLookup>) -> (r: Vec<KeyInfo>)
    ensures
        r@.len() == lookups@.len(),
        forall|i: int|
            0 <= i < lookups@.len() ==> spec_inspect_matches(
                #[trigger] lookups@[i],
                r@[i],
            ),
{
    let n = lookups.len();
    let mut out: Vec<KeyInfo> = Vec::new();
    let mut i: usize = 0;
    while i < n
        invariant
            i <= n,
            n == lookups@.len(),
            out@.len() == i,
            forall|j: int|
                0 <= j < i ==> spec_inspect_matches(#[trigger] lookups@[j], out@[j]),
        decreases n - i,
    {
        out.push(inspect_key(&lookups[i]));
        i = i + 1;
    }
    out
}

/// One configuration key a provider declares.
#[derive(Debug, PartialEq, Eq)]
pub struct ConfigKey {
    pub name: String,
    pub required: bool,
    pub secret: bool,
    pub default: Option<String>,
}

/// What a provider declares about its configuration.
#[derive(Debug, PartialEq, Eq)]
pub struct ProviderMetadata {
    pub name: String,
    pub config_keys: Vec<ConfigKey>,
}

/// The names currently set, as looked up at the edge: keys present in the
/// process environment and keys (or boolean parameters) present in the
/// config store.
#[derive(Debug, PartialEq, Eq)]
pub struct ConfigSnapshot {
    pub env_keys: Vec<String>,
    pub config_keys: Vec<String>,
}

/// Whether a key of this name is set in either store.
pub open spec fn key_set(snap: ConfigSnapshot, name: Seq<char>) -> bool {
    seq_contains_str(snap.env_keys@, name) || seq_contains_str(snap.config_keys@, name)
}

/// The provider's explicit configuration marker: a boolean parameter in
/// the config store named `<provider>_configured`.
pub open spec fn marker_name(provider: Seq<char>) -> Seq<char> {
    provider + "_configured"@
}

/// The required keys, in declaration order.
pub open spec fn required_of(keys: Seq<ConfigKey>) -> Seq<ConfigKey>
    decreases keys.len(),
{
    if keys.len() == 0 {
        Seq::empty()
    } else {
        let rest = required_of(keys.drop_first());
        if keys[0].required {
            seq![keys[0]] + rest
        } else {
            rest
        }
    }
}

/// The keys with no default value, in declaration order.
pub open spec fn non_default_of(keys: Seq<ConfigKey>) -> Seq<ConfigKey>
    decreases keys.len(),
{
    if keys.len() == 0 {
        Seq::empty()
    } else {
        let rest = non_default_of(keys.drop_first());
        if keys[0].default is None {
            seq![keys[0]] + rest
        } else {
            rest
        }
    }
}

/// Whether every key is optional and carries a default.
pub open spec fn all_optional_with_defaults(keys: Seq<ConfigKey>) -> bool {
    forall|i: int|
        0 <= i < keys.len() ==> !(#[trigger] keys[i]).required && keys[i].default is Some
}

/// Whether some of the keys is set.
pub open spec fn any_key_set(snap: ConfigSnapshot, keys: Seq<ConfigKey>) -> bool {
    exists|i: int| 0 <= i < keys.len() && key_set(snap, #[trigger] keys[i].name@)
}

/// Whether every one of the keys is set.
pub open spec fn all_keys_set(snap: ConfigSnapshot, keys: Seq<ConfigKey>) -> bool {
    forall|i: int| 0 <= i < keys.len() ==> key_set(snap, #[trigger] keys[i].name@)
}

/// Whether the provider counts as configured: zero-config providers need
/// their explicit marker; a single required key with a default must be
/// explicitly set; all-optional-with-defaults providers need the marker;
/// otherwise every required key without a default must be set (or, if all
/// required keys have defaults, at least one of them).
pub open spec fn spec_provider_configured(md: ProviderMetadata, snap: ConfigSnapshot) -> bool {
    let keys = md.config_keys@;
    let required = required_of(keys);
    if keys.len() == 0 {
        seq_contains_str(snap.config_keys@, marker_name(md.name@))
    } else if required.len() == 1 && required[0].default is Some {
        key_set(snap, required[0].name@)
    } else if required.len() == 0 && all_optional_with_defaults(keys) {
        seq_contains_str(snap.config_keys@, marker_name(md.name@))
    } else {
        let rnd = non_default_of(required);
        if rnd.len() == 0 {
            any_key_set(snap, required)
        } else {
            all_keys_set(snap, rnd)
        }
    }
}

impl Clone for ConfigKey {
    /// Cloning keeps the value.
    fn clone(&self) -> (res: Self)
        ensures
            res == *self,
    {
        ConfigKey {
            name: self.name.clone(),
            required: self.required,
            secret: self.secret,
            default: match &self.default {
                Some(s) => Some(s.clone()),
                None => None,
            },
        }
    }
}

fn key_set_exec(snap: &ConfigSnapshot, name: &String) -> (r: bool)
    ensures
        r == key_set(*snap, name@),
{
    if vec_contains_string(&snap.env_keys, name) {
        true
    } else {
        vec_contains_string(&snap.config_keys, name)
    }
}

fn required_keys_of(keys: &Vec<ConfigKey>) -> (r: Vec<ConfigKey>)
    ensures
        r@ == required_of(keys@),
{
    let n = keys.len();
    let mut out: Vec<ConfigKey> = Vec::new();
    let mut i: usize = 0;
    proof {
        assert(keys@.skip(0) =~= keys@);
    }
    while i < n
        invariant
            i <= n,
            n == keys@.len(),
            required_of(keys@) == out@ + required_of(keys@.skip(i as int)),
        decreases n - i,
    {
        proof {
            assert(keys@.skip(i as int)[0] == keys@[i as int]);
            assert(keys@.skip(i as int).drop_first() =~= keys@.skip(i as int + 1));
        }
        let ghost prev = out@;
        if keys[i].required {
            out.push(keys[i].clone());
            proof {
                assert(out@ =~= prev + seq![keys@[i as int]]);
                assert(prev + (seq![keys@[i as int]] + required_of(keys@.skip(i as int + 1)))
                    =~= out@ + required_of(keys@.skip(i as int + 1)));
            }
        }
        i = i + 1;
    }
    proof {
        assert(keys@.skip(n as int) =~= Seq::<ConfigKey>::empty());
        assert(required_of(keys@) =~= out@);
    }
    out
}

fn non_default_keys_of(keys: &Vec<ConfigKey>) -> (r: Vec<ConfigKey>)
    ensures
        r@ == non_default_of(keys@),
{
    let n = keys.len();
    let mut out: Vec<ConfigKey> = Vec::new();
    let mut i: usize = 0;
    proof {
        assert(keys@.skip(0) =~= keys@);
    }
    while i < n
        invariant
            i <= n,
            n == keys@.len(),
            non_default_of(keys@) == out@ + non_default_of(keys@.skip(i as int)),
        decreases n - i,
    {
        proof {
            assert(keys@.skip(i as int)[0] == keys@[i as int]);
            assert(keys@.skip(i as int).drop_first() =~= keys@.skip(i as int + 1));
        }
        let ghost prev = out@;
        let keep = match &keys[i].default {
            None => true,
            Some(_) => false,
        };
        if keep {
            out.push(keys[i].clone());
            proof {
                assert(out@ =~= prev + seq![keys@[i as int]]);
                assert(prev + (seq![keys@[i as int]] + non_default_of(keys@.skip(i as int + 1)))
                    =~= out@ + non_default_of(keys@.skip(i as int + 1)));
            }
        }
        i = i + 1;
    }
    proof {
        assert(keys@.skip(n as int) =~= Seq::<ConfigKey>::empty());
        assert(non_default_of(keys@) =~= out@);
    }
    out
}

fn all_optional_with_defaults_exec(keys: &Vec<ConfigKey>) -> (r: bool)
    ensures
        r == all_optional_with_defaults(keys@),
{
    let n = keys.len();
    let mut i: usize = 0;
    while i < n
        invariant
            i <= n,
            n == keys@.len(),
            forall|j: int|
                0 <= j < i ==> !(#[trigger] keys@[j]).required && keys@[j].default is Some,
        decreases n - i,
    {
        let ok = match &keys[i].default {
            Some(_) => !keys[i].required,
            None => false,
        };
        if !ok {
            return false;
        }
        i = i + 1;
    }
    true
}

fn any_key_set_exec(snap: &ConfigSnapshot, keys: &Vec<ConfigKey>) -> (r: bool)
    ensures
        r == any_key_set(*snap, keys@),
{
    let n = keys.len();
    let mut i: usize = 0;
    while i < n
        invariant
            i <= n,
            n == keys@.len(),
            forall|j: int| 0 <= j < i ==> !key_set(*snap, #[trigger] keys@[j].name@),
        decreases n - i,
    {
        if key_set_exec(snap, &keys[i].name) {
            return true;
        }
        i = i + 1;
    }
    false
}

fn all_keys_set_exec(snap: &ConfigSnapshot, keys: &Vec<ConfigKey>) -> (r: bool)
    ensures
        r == all_keys_set(*snap, keys@),
{
    let n = keys.len();
    let mut i: usize = 0;
    while i < n
        invariant
            i <= n,
            n == keys@.len(),
            forall|j: int| 0 <= j < i ==> key_set(*snap, #[trigger] keys@[j].name@),
        decreases n - i,
    {
        if !key_set_exec(snap, &keys[i].name) {
            return false;
        }
        i = i + 1;
    }
    true
}

/// Decide whether a provider counts as configured, given what the stores
/// hold.
pub fn check_provider_configured(metadata: &ProviderMetadata, snap: &ConfigSnapshot) -> (r: bool)
    ensures
        r == spec_provider_configured(*metadata, *snap),
{
    let marker = {
        let mut m = metadata.name.clone();
        m.append("_configured");
        proof {
            assert(m@ =~= marker_name(metadata.name@));
        }
        m
    };
    if metadata.config_keys.len() == 0 {
        return vec_contains_string(&snap.config_keys, &marker);
    }
    let required = required_keys_of(&metadata.config_keys);
    if required.len() == 1 {
        let has_default = match &required[0].default {
            Some(_) => true,
            None => false,
        };
        if has_default {
            return key_set_exec(snap, &required[0].name);
        }
    }
    if required.len() == 0 && all_optional_with_defaults_exec(&metadata.config_keys) {
        return vec_contains_string(&snap.config_keys, &marker);
    }
    let rnd = non_default_keys_of(&required);
    if rnd.len() == 0 {
        any_key_set_exec(snap, &required)
    } else {
        all_keys_set_exec(snap, &rnd)
    }
}

} // verus!
